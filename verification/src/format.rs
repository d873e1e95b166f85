//! Data-partition formatting: filesystem types, `--fs-options` bitmask,
//! bootloader numeric variables, and the argument lists of the filesystem
//! generators.
use vstd::prelude::*;
use crate::text::{chars_of, trim, trim_bounds, has_prefix, str_eq, range_eq, unicode_lowercase, unicode_lowered};
use crate::num::{spec_hex_u64, parse_radix_range};

verus! {

/// Filesystem types that can be generated.
#[derive(Debug, Clone, Copy, PartialEq, Eq, Structural)]
pub enum FsType {
    Ext4,
    F2fs,
}

/// Which filesystem a partition type string names, once lowercased by
/// Unicode's rules (`str::to_lowercase`).
pub open spec fn spec_fs_type(s: Seq<char>) -> Option<FsType> {
    if unicode_lowercase(s) == "ext4"@ {
        Some(FsType::Ext4)
    } else if unicode_lowercase(s) == "f2fs"@ {
        Some(FsType::F2fs)
    } else {
        None
    }
}

impl FsType {
    /// Maps a fastboot partition type string to a known `FsType`.
    /// Returns `None` for unsupported types (e.g. "raw", "swap").
    pub fn from_partition_type(s: &str) -> (r: Option<FsType>)
        ensures
            r == spec_fs_type(s@),
    {
        let l = unicode_lowered(s);
        if str_eq(l.as_str(), "ext4") {
            Some(FsType::Ext4)
        } else if str_eq(l.as_str(), "f2fs") {
            Some(FsType::F2fs)
        } else {
            None
        }
    }
}

/// Bit of the `--fs-options` mask that asks for case-folding.
pub const FS_OPT_CASEFOLD: u32 = 1;
/// Bit of the `--fs-options` mask that asks for project ids.
pub const FS_OPT_PROJID: u32 = 2;
/// Bit of the `--fs-options` mask that asks for compression.
pub const FS_OPT_COMPRESS: u32 = 4;

/// `name` stands in `s` as one of its comma-separated items.
pub open spec fn has_item(s: Seq<char>, name: Seq<char>) -> bool {
    exists|a: int|
        #![trigger s.subrange(a, a + name.len())]
        0 <= a && a + name.len() <= s.len() && s.subrange(a, a + name.len()) == name && (a == 0 || s[a - 1]
            == ',') && (a + name.len() == s.len() || s[a + name.len()] == ',')
}

/// `name` is an item of one of the option strings, each of which is a
/// comma-separated list.
pub open spec fn names_option(opts: Seq<String>, name: Seq<char>) -> bool {
    exists|i: int| 0 <= i < opts.len() && has_item(#[trigger] opts[i]@, name)
}

/// The bitmask that `--fs-options` strings select: each string is split
/// at commas, and the bit of every item is set; unknown items select
/// nothing.
pub open spec fn spec_fs_options(opts: Seq<String>) -> u32 {
    ((if names_option(opts, "casefold"@) { 1int } else { 0int }) + (if names_option(
        opts,
        "projid"@,
    ) {
        2int
    } else {
        0int
    }) + (if names_option(opts, "compress"@) {
        4int
    } else {
        0int
    })) as u32
}

/// Whether `name` is one of the comma-separated items of `v`.
fn find_item(v: &Vec<char>, name: &Vec<char>) -> (r: bool)
    requires
        name@.len() > 0,
    ensures
        r == has_item(v@, name@),
{
    let n = name.len();
    if n > v.len() {
        return false;
    }
    let len = v.len();
    let last = len - n;
    let mut a: usize = 0;
    while a <= last
        invariant
            n == name@.len(),
            0 < n <= v@.len(),
            len == v@.len(),
            last == v@.len() - n,
            a <= last + 1,
            forall|k: int|
                #![trigger v@.subrange(k, k + n)]
                0 <= k < a ==> !(v@.subrange(k, k + n) == name@ && (k == 0 || v@[k - 1] == ',') && (k + n
                    == v@.len() || v@[k + n] == ',')),
        decreases last + 1 - a,
    {
        assert(a + n <= v@.len());
        let starts = a == 0 || v[a - 1] == ',';
        let ends = a + n == len || v[a + n] == ',';
        if starts && ends && range_eq(v, a, a + n, name) {
            assert(v@.subrange(a as int, a + n) == name@);
            return true;
        }
        a += 1;
    }
    proof {
        assert forall|k: int| #![trigger v@.subrange(k, k + name@.len())]
            0 <= k && k + name@.len() <= v@.len() implies !(v@.subrange(k, k + name@.len()) == name@ && (k == 0
            || v@[k - 1] == ',') && (k + name@.len() == v@.len() || v@[k + name@.len()] == ',')) by {
            assert(k < a);
        }
    }
    false
}

/// Parse comma-separated fs-options strings into a bitmask.
/// Options: casefold, projid, compress; other items are ignored.
pub fn parse_fs_options(options: &[String]) -> (flags: u32)
    ensures
        flags == spec_fs_options(options@),
{
    let casefold_name = chars_of("casefold");
    let projid_name = chars_of("projid");
    let compress_name = chars_of("compress");
    proof {
        reveal_strlit("casefold");
        reveal_strlit("projid");
        reveal_strlit("compress");
    }
    let mut casefold = false;
    let mut projid = false;
    let mut compress = false;
    let mut i: usize = 0;
    while i < options.len()
        invariant
            i <= options.len(),
            casefold_name@ == "casefold"@,
            casefold_name@.len() > 0 && projid_name@.len() > 0 && compress_name@.len() > 0,
            projid_name@ == "projid"@,
            compress_name@ == "compress"@,
            casefold == names_option(options@.take(i as int), "casefold"@),
            projid == names_option(options@.take(i as int), "projid"@),
            compress == names_option(options@.take(i as int), "compress"@),
        decreases options.len() - i,
    {
        let opt = chars_of(options[i].as_str());
        let ghost prev = options@.take(i as int);
        let ghost next = options@.take(i + 1);
        assert(next =~= prev.push(options@[i as int]));
        if find_item(&opt, &casefold_name) {
            casefold = true;
        }
        if find_item(&opt, &projid_name) {
            projid = true;
        }
        if find_item(&opt, &compress_name) {
            compress = true;
        }
        proof {
            assert forall|name: Seq<char>| #[trigger]
                names_option(next, name) == (names_option(prev, name) || has_item(options@[i as int]@,
                    name)) by {
                if names_option(next, name) {
                    let k = choose|k: int| 0 <= k < next.len() && has_item(#[trigger] next[k]@, name);
                    if k < prev.len() {
                        assert(prev[k] == next[k]);
                    }
                }
                if names_option(prev, name) {
                    let k = choose|k: int| 0 <= k < prev.len() && has_item(#[trigger] prev[k]@, name);
                    assert(next[k] == prev[k]);
                }
                if has_item(options@[i as int]@, name) {
                    assert(next[i as int] == options@[i as int]);
                }
            }
        }
        i += 1;
    }
    assert(options@.take(options.len() as int) =~= options@);
    let mut flags: u32 = 0;
    if casefold {
        flags = flags + FS_OPT_CASEFOLD;
    }
    if projid {
        flags = flags + FS_OPT_PROJID;
    }
    if compress {
        flags = flags + FS_OPT_COMPRESS;
    }
    flags
}

/// `t` without a leading `0x` or `0X`.
pub open spec fn strip_hex_prefix(t: Seq<char>) -> Seq<char> {
    if has_prefix(t, seq!['0', 'x']) || has_prefix(t, seq!['0', 'X']) {
        t.skip(2)
    } else {
        t
    }
}

/// Value of a bootloader numeric variable: surrounding whitespace and an
/// optional `0x`/`0X` prefix are removed and the rest is read as hex.
pub open spec fn spec_getvar_hex(s: Seq<char>) -> Option<nat> {
    let u = strip_hex_prefix(trim(s));
    if u.len() == 0 {
        None
    } else {
        spec_hex_u64(u)
    }
}

/// Parse a bootloader-reported numeric variable as hex.
/// Some bootloaders omit the `0x` prefix; AOSP always treats the value as hex.
pub fn parse_getvar_hex_u64(s: &str) -> (r: Option<u64>)
    ensures
        match r {
            Some(x) => spec_getvar_hex(s@) == Some(x as nat),
            None => spec_getvar_hex(s@) is None,
        },
{
    let v = chars_of(s);
    let (i, j) = trim_bounds(&v);
    let ghost t = v@.subrange(i as int, j as int);
    let mut start = i;
    if j - i >= 2 && v[i] == '0' && (v[i + 1] == 'x' || v[i + 1] == 'X') {
        start = i + 2;
        assert(t.subrange(0, 2) =~= seq!['0', v@[i + 1]]);
    } else {
        proof {
            if t.len() >= 2 {
                assert(t.subrange(0, 2) =~= seq![t[0], t[1]]);
            }
        }
    }
    assert(strip_hex_prefix(t) =~= v@.subrange(start as int, j as int));
    if start == j {
        return None;
    }
    parse_radix_range(&v, start, j, 16, u64::MAX)
}

} // verus!

verus! {

/// A partition type names ext4 or f2fs exactly when it lowercases to that
/// name; any other type (`raw`, `swap`, ...) names no filesystem.
pub proof fn law_fs_type_names(s: Seq<char>)
    ensures
        unicode_lowercase(s) == "ext4"@ <==> spec_fs_type(s) == Some(FsType::Ext4),
        unicode_lowercase(s) == "f2fs"@ <==> spec_fs_type(s) == Some(FsType::F2fs),
        spec_fs_type(s) is None <==> unicode_lowercase(s) != "ext4"@ && unicode_lowercase(s) != "f2fs"@,
{
    reveal_strlit("ext4");
    reveal_strlit("f2fs");
    assert("ext4"@[0] != "f2fs"@[0]);
}

} // verus!
