//! Reading scatter files and images: the text encoding of a scatter file,
//! its newline normalisation and digest, whether it is XML, and the kind of
//! an image judged by its first bytes.
use vstd::prelude::*;
use vstd::utf8::{encode_utf8, encode_scalar, valid_utf8, decode_utf8};
use sha2::Digest;
use crate::text::{chars_of, lower_seq, range_lower_eq, replace_all, replace_str, string_from_chars};

verus! {

// ── Scatter text ─────────────────────────────────────────────────────

/// Characters skipped before looking at the first tag of a scatter file.
pub open spec fn is_lead_junk(c: char) -> bool {
    c == '\u{feff}' || c == '\n' || c == '\r' || c == '\t' || c == ' '
}

/// `s` without its leading byte-order marks and ASCII blanks.
pub open spec fn skip_lead_junk(s: Seq<char>) -> Seq<char>
    decreases s.len(),
{
    if s.len() > 0 && is_lead_junk(s[0]) {
        skip_lead_junk(s.drop_first())
    } else {
        s
    }
}

/// The first `n` characters of `t`, ASCII case ignored, are `lit` (which
/// is lowercase).
pub open spec fn starts_ci(t: Seq<char>, n: nat, lit: Seq<char>) -> bool {
    t.len() >= n && lower_seq(t.take(n as int)) == lit
}

/// Whether scatter text is XML: after leading blanks it opens with `<?xml`,
/// `<root` or `<da`, ASCII case ignored. A seven-character window is
/// also compared with the eight characters of `<scatter`, which never
/// matches.
pub open spec fn spec_looks_like_xml(text: Seq<char>) -> bool {
    let t = skip_lead_junk(text);
    ||| starts_ci(t, 7, "<scatter"@)
    ||| starts_ci(t, 5, "<?xml"@)
    ||| starts_ci(t, 5, "<root"@)
    ||| starts_ci(t, 3, "<da"@)
}

proof fn lemma_skip_lead_junk(s: Seq<char>, i: int)
    requires
        0 <= i <= s.len(),
        forall|k: int| 0 <= k < i ==> is_lead_junk(#[trigger] s[k]),
    ensures
        skip_lead_junk(s) == skip_lead_junk(s.skip(i)),
    decreases i,
{
    if i > 0 {
        assert(s.skip(1) =~= s.drop_first());
        lemma_skip_lead_junk(s.drop_first(), i - 1);
        assert(s.drop_first().skip(i - 1) =~= s.skip(i));
    } else {
        assert(s.skip(0) =~= s);
    }
}

fn window_is(v: &Vec<char>, start: usize, n: usize, lit: &str) -> (r: bool)
    requires
        start <= v.len(),
    ensures
        r == starts_ci(v@.skip(start as int), n as nat, lit@),
{
    let l = chars_of(lit);
    if v.len() - start < n {
        return false;
    }
    let r = range_lower_eq(v, start, start + n, &l);
    assert(v@.skip(start as int).take(n as int) =~= v@.subrange(start as int, start + n));
    r
}

/// Whether scatter text is XML rather than YAML.
pub fn looks_like_xml(text: &str) -> (r: bool)
    ensures
        r == spec_looks_like_xml(text@),
{
    let v = chars_of(text);
    let mut i: usize = 0;
    while i < v.len() && (v[i] == '\u{feff}' || v[i] == '\n' || v[i] == '\r' || v[i] == '\t'
        || v[i] == ' ')
        invariant
            i <= v.len(),
            forall|k: int| 0 <= k < i ==> is_lead_junk(#[trigger] v@[k]),
        decreases v.len() - i,
    {
        i += 1;
    }
    proof {
        lemma_skip_lead_junk(v@, i as int);
        let rest = v@.skip(i as int);
        if rest.len() > 0 {
            assert(rest[0] == v@[i as int]);
        }
        assert(skip_lead_junk(rest) == rest);
    }
    window_is(&v, i, 7, "<scatter") || window_is(&v, i, 5, "<?xml") || window_is(&v, i, 5, "<root")
        || window_is(&v, i, 3, "<da")
}

/// Number of NUL characters in `t`.
pub open spec fn nul_count(t: Seq<char>) -> nat
    decreases t.len(),
{
    if t.len() == 0 {
        0
    } else {
        nul_count(t.drop_last()) + if t.last() == '\0' {
            1nat
        } else {
            0nat
        }
    }
}

/// A decoding is accepted when it holds fewer NULs than one per twenty
/// bytes of its UTF-8 form (and in any case fewer than one).
pub open spec fn plausible_text(t: Seq<char>) -> bool {
    let quota = encode_utf8(t).len() / 20;
    nul_count(t) < if quota < 1 {
        1
    } else {
        quota
    }
}

/// Line endings `\r\n` and lone `\r` become `\n`.
pub open spec fn normalize_newlines(t: Seq<char>) -> Seq<char> {
    replace_all(replace_all(t, "\r\n"@, "\n"@), "\r"@, "\n"@)
}

/// Each byte read as the character of the same number.
pub open spec fn latin1_chars(raw: Seq<u8>) -> Seq<char> {
    raw.map_values(|b: u8| b as char)
}

/// Text encodings tried on a scatter file, in order.
#[derive(Debug, Clone, Copy, PartialEq, Eq, Structural)]
pub enum TextEncoding {
    Utf8,
    Utf16Le,
    Utf16Be,
}

/// What `encoding_rs`'s `Encoding::decode` gives for `raw`, starting from
/// `enc` (a byte-order mark in `raw` may choose another encoding).
pub uninterp spec fn encoding_decode(enc: TextEncoding, raw: Seq<u8>) -> Seq<char>;

/// What `String::from_utf8_lossy` gives for `raw`.
pub uninterp spec fn utf8_lossy(raw: Seq<u8>) -> Seq<char>;

/// `encoding_rs::Encoding::decode` on the whole input, BOM sniffing
/// included, malformed input replaced; claimed: the result is a function of
/// the encoding and the bytes. The bound on `raw` keeps its buffer-size
/// computation (at most three bytes out per byte in) clear of overflow,
/// on which it would panic.
#[verifier::external_body]
fn decode_with(enc: TextEncoding, raw: &[u8]) -> (r: String)
    requires
        raw@.len() <= usize::MAX / 8,
    ensures
        r@ == encoding_decode(enc, raw@),
{
    let e = match enc {
        TextEncoding::Utf8 => encoding_rs::UTF_8,
        TextEncoding::Utf16Le => encoding_rs::UTF_16LE,
        TextEncoding::Utf16Be => encoding_rs::UTF_16BE,
    };
    e.decode(raw).0.into_owned()
}

/// `String::from_utf8_lossy`; claimed: valid UTF-8 is decoded unchanged.
#[verifier::external_body]
fn from_utf8_lossy(raw: &[u8]) -> (r: String)
    ensures
        r@ == utf8_lossy(raw@),
        valid_utf8(raw@) ==> r@ == decode_utf8(raw@),
{
    String::from_utf8_lossy(raw).into_owned()
}

/// The characters of a scatter file: the first of UTF-8, UTF-16LE,
/// UTF-16BE and Latin-1 decodings that is plausible text, else lossy
/// UTF-8; then with normalised newlines.
pub open spec fn spec_decode_scatter(raw: Seq<u8>) -> Seq<char> {
    let c0 = encoding_decode(TextEncoding::Utf8, raw);
    let c1 = encoding_decode(TextEncoding::Utf16Le, raw);
    let c2 = encoding_decode(TextEncoding::Utf16Be, raw);
    let c3 = latin1_chars(raw);
    normalize_newlines(
        if plausible_text(c0) {
            c0
        } else if plausible_text(c1) {
            c1
        } else if plausible_text(c2) {
            c2
        } else if plausible_text(c3) {
            c3
        } else {
            utf8_lossy(raw)
        },
    )
}

fn count_nuls(v: &Vec<char>) -> (r: usize)
    ensures
        r == nul_count(v@),
{
    let mut n: usize = 0;
    let mut i: usize = 0;
    while i < v.len()
        invariant
            i <= v.len(),
            n == nul_count(v@.take(i as int)),
            n <= i,
        decreases v.len() - i,
    {
        assert(v@.take(i + 1).drop_last() =~= v@.take(i as int));
        if v[i] == '\0' {
            n += 1;
        }
        i += 1;
    }
    assert(v@.take(v.len() as int) =~= v@);
    n
}

/// Bytes in the UTF-8 form of `c`.
pub open spec fn char_width(c: char) -> nat {
    encode_scalar(c as u32).len()
}

/// Bytes in the UTF-8 form of `s`.
pub open spec fn utf8_len(s: Seq<char>) -> nat
    decreases s.len(),
{
    if s.len() == 0 {
        0
    } else {
        char_width(s[0]) + utf8_len(s.drop_first())
    }
}

proof fn lemma_utf8_len(s: Seq<char>)
    ensures
        encode_utf8(s).len() == utf8_len(s),
    decreases s.len(),
{
    if s.len() > 0 {
        lemma_utf8_len(s.drop_first());
    }
}

fn char_width_of(c: char) -> (r: u8)
    ensures
        r == char_width(c),
        1 <= r <= 4,
{
    let u: u32 = c as u32;
    if u <= 0x7f {
        1
    } else if u <= 0x7ff {
        2
    } else if u <= 0xffff {
        3
    } else {
        4
    }
}

fn utf8_len_of(v: &Vec<char>) -> (r: u128)
    ensures
        r == utf8_len(v@),
{
    let mut total: u128 = 0;
    let mut i: usize = v.len();
    assert(v@.skip(v.len() as int) =~= Seq::<char>::empty());
    while i > 0
        invariant
            i <= v.len(),
            total == utf8_len(v@.skip(i as int)),
            total <= 4 * (v.len() - i),
        decreases i,
    {
        i -= 1;
        let w = char_width_of(v[i]);
        assert(v@.skip(i as int).drop_first() =~= v@.skip(i + 1));
        assert(v@.skip(i as int)[0] == v@[i as int]);
        total = total + w as u128;
    }
    assert(v@.skip(0) =~= v@);
    total
}

/// Whether a decoding is plausible text.
pub fn is_plausible_text(t: &String) -> (r: bool)
    ensures
        r == plausible_text(t@),
{
    let v = chars_of(t.as_str());
    let bytes = utf8_len_of(&v);
    proof {
        lemma_utf8_len(t@);
    }
    let quota: u128 = bytes / 20;
    let nuls = count_nuls(&v);
    (nuls as u128) < if quota < 1 {
        1
    } else {
        quota
    }
}

fn latin1_string(raw: &[u8]) -> (r: String)
    ensures
        r@ == latin1_chars(raw@),
{
    let mut v: Vec<char> = Vec::new();
    let mut i: usize = 0;
    while i < raw.len()
        invariant
            i <= raw.len(),
            v@ =~= latin1_chars(raw@.take(i as int)),
        decreases raw.len() - i,
    {
        let b: u8 = raw[i];
        v.push(b as char);
        i += 1;
    }
    assert(raw@.take(raw.len() as int) =~= raw@);
    string_from_chars(&v)
}

/// `\r\n` and lone `\r` line endings replaced by `\n`.
pub fn normalized_newlines(t: &str) -> (r: String)
    ensures
        r@ == normalize_newlines(t@),
{
    proof {
        reveal_strlit("\r\n");
        reveal_strlit("\r");
    }
    let a = replace_str(t, "\r\n", "\n");
    replace_str(a.as_str(), "\r", "\n")
}

/// Decode the bytes of a scatter file to text.
pub fn decode_scatter_bytes(raw: &[u8]) -> (r: String)
    requires
        raw@.len() <= usize::MAX / 8,
    ensures
        r@ == spec_decode_scatter(raw@),
{
    let c0 = decode_with(TextEncoding::Utf8, raw);
    if is_plausible_text(&c0) {
        return normalized_newlines(c0.as_str());
    }
    let c1 = decode_with(TextEncoding::Utf16Le, raw);
    if is_plausible_text(&c1) {
        return normalized_newlines(c1.as_str());
    }
    let c2 = decode_with(TextEncoding::Utf16Be, raw);
    if is_plausible_text(&c2) {
        return normalized_newlines(c2.as_str());
    }
    let c3 = latin1_string(raw);
    if is_plausible_text(&c3) {
        return normalized_newlines(c3.as_str());
    }
    let lossy = from_utf8_lossy(raw);
    normalized_newlines(lossy.as_str())
}

// ── Digest ───────────────────────────────────────────────────────────

/// What `sha2::Sha256::digest` gives for `data`.
pub uninterp spec fn sha256_of(data: Seq<u8>) -> Seq<u8>;

/// `sha2::Sha256::digest`; claimed: the digest of `data`, 32 bytes long.
#[verifier::external_body]
fn sha256_digest(data: &[u8]) -> (r: Vec<u8>)
    ensures
        r@ == sha256_of(data@),
        r@.len() == 32,
{
    sha2::Sha256::digest(data).to_vec()
}

/// Lowercase hexadecimal digit for a value below sixteen.
pub open spec fn hex_digit(d: nat) -> char {
    if d < 10 {
        ((d + 48) as u8) as char
    } else {
        ((d + 87) as u8) as char
    }
}

/// Two lowercase hexadecimal digits per byte.
pub open spec fn hex_lower(b: Seq<u8>) -> Seq<char>
    decreases b.len(),
{
    if b.len() == 0 {
        Seq::empty()
    } else {
        hex_lower(b.drop_last()) + seq![hex_digit((b.last() / 16) as nat), hex_digit((b.last() % 16) as nat)]
    }
}

pub(crate) fn hex_digit_char(d: u8) -> (r: char)
    requires
        d < 16,
    ensures
        r == hex_digit(d as nat),
{
    if d < 10 {
        (d + 48) as char
    } else {
        (d + 87) as char
    }
}

/// Bytes in lowercase hexadecimal.
pub fn hex_string(b: &[u8]) -> (r: String)
    ensures
        r@ == hex_lower(b@),
{
    let mut v: Vec<char> = Vec::new();
    let mut i: usize = 0;
    while i < b.len()
        invariant
            i <= b.len(),
            v@ == hex_lower(b@.take(i as int)),
        decreases b.len() - i,
    {
        let x: u8 = b[i];
        assert(b@.take(i + 1).drop_last() =~= b@.take(i as int));
        v.push(hex_digit_char(x / 16));
        v.push(hex_digit_char(x % 16));
        i += 1;
    }
    assert(b@.take(b.len() as int) =~= b@);
    string_from_chars(&v)
}

/// The SHA-256 digest of the text's UTF-8 bytes, in lowercase hex.
pub fn sha256_text(text: &str) -> (r: String)
    ensures
        r@ == hex_lower(sha256_of(encode_utf8(text@))),
        r@.len() == 64,
{
    let d = sha256_digest(text.as_bytes());
    let r = hex_string(d.as_slice());
    proof {
        lemma_hex_len(d@);
    }
    r
}

proof fn lemma_hex_len(b: Seq<u8>)
    ensures
        hex_lower(b).len() == 2 * b.len(),
    decreases b.len(),
{
    if b.len() > 0 {
        lemma_hex_len(b.drop_last());
    }
}

// ── Image kinds ──────────────────────────────────────────────────────

/// What an image file appears to be.
#[derive(Debug, Clone, Copy, PartialEq, Eq, Structural)]
pub enum ImageKind {
    Empty,
    AndroidBootOrRecoveryImage,
    AndroidVbmetaImage,
    AndroidSparseImage,
    Elf,
    PossibleExtFilesystem,
    GptOrDiskImage,
    RawOrUnknown,
}

/// `p` is a prefix of `b`.
pub open spec fn bytes_start_with(b: Seq<u8>, p: Seq<u8>) -> bool {
    p.len() <= b.len() && b.take(p.len() as int) == p
}

/// `ANDROID!`
pub open spec fn android_boot_magic() -> Seq<u8> {
    seq![0x41u8, 0x4e, 0x44, 0x52, 0x4f, 0x49, 0x44, 0x21]
}

/// `AVB0`
pub open spec fn avb_magic() -> Seq<u8> {
    seq![0x41u8, 0x56, 0x42, 0x30]
}

/// The sparse image magic in file order.
pub open spec fn sparse_magic() -> Seq<u8> {
    seq![0x3au8, 0xff, 0x26, 0xed]
}

/// `ELF`
pub open spec fn elf_short_magic() -> Seq<u8> {
    seq![0x45u8, 0x4c, 0x46]
}

/// `\x7fELF`
pub open spec fn elf_magic() -> Seq<u8> {
    seq![0x7fu8, 0x45, 0x4c, 0x46]
}

/// `EFI PART`
pub open spec fn gpt_signature() -> Seq<u8> {
    seq![0x45u8, 0x46, 0x49, 0x20, 0x50, 0x41, 0x52, 0x54]
}

/// The ext superblock magic sits at 0x438 in either byte order.
pub open spec fn has_ext_magic(h: Seq<u8>) -> bool {
    h.len() >= 0x43a && ((h[0x438] == 0x53 && h[0x439] == 0xef) || (h[0x438] == 0xef && h[0x439]
        == 0x53))
}

/// `EFI PART` lies wholly within the first 1024 bytes.
pub open spec fn has_gpt_signature(h: Seq<u8>) -> bool {
    h.len() >= 1024 && exists|i: int|
        0 <= i <= 1016 && #[trigger] h.subrange(i, i + 8) == gpt_signature()
}

/// The kind of an image whose first bytes are `h`; the first matching test
/// wins.
pub open spec fn spec_image_kind(h: Seq<u8>) -> ImageKind {
    if h.len() == 0 {
        ImageKind::Empty
    } else if bytes_start_with(h, android_boot_magic()) {
        ImageKind::AndroidBootOrRecoveryImage
    } else if bytes_start_with(h, avb_magic()) {
        ImageKind::AndroidVbmetaImage
    } else if bytes_start_with(h, sparse_magic()) {
        ImageKind::AndroidSparseImage
    } else if bytes_start_with(h, elf_short_magic()) || bytes_start_with(h, elf_magic()) {
        ImageKind::Elf
    } else if has_ext_magic(h) {
        ImageKind::PossibleExtFilesystem
    } else if has_gpt_signature(h) {
        ImageKind::GptOrDiskImage
    } else {
        ImageKind::RawOrUnknown
    }
}

fn starts_with_bytes(h: &[u8], p: &Vec<u8>) -> (r: bool)
    ensures
        r == bytes_start_with(h@, p@),
{
    if p.len() > h.len() {
        return false;
    }
    let mut k: usize = 0;
    while k < p.len()
        invariant
            p.len() <= h.len(),
            k <= p.len(),
            forall|m: int| 0 <= m < k ==> h@[m] == p@[m],
        decreases p.len() - k,
    {
        if h[k] != p[k] {
            assert(h@.take(p.len() as int)[k as int] != p@[k as int]);
            return false;
        }
        k += 1;
    }
    assert(h@.take(p.len() as int) =~= p@);
    true
}

fn gpt_signature_at(h: &[u8], i: usize) -> (r: bool)
    requires
        i + 8 <= h.len(),
    ensures
        r == (h@.subrange(i as int, i + 8) == gpt_signature()),
{
    let r = h[i] == 0x45 && h[i + 1] == 0x46 && h[i + 2] == 0x49 && h[i + 3] == 0x20 && h[i + 4]
        == 0x50 && h[i + 5] == 0x41 && h[i + 6] == 0x52 && h[i + 7] == 0x54;
    if r {
        assert(h@.subrange(i as int, i + 8) =~= gpt_signature());
    } else {
        assert(h@.subrange(i as int, i + 8) != gpt_signature()) by {
            let s = h@.subrange(i as int, i + 8);
            if s == gpt_signature() {
                assert(s[0] == h@[i as int] && s[1] == h@[i + 1] && s[2] == h@[i + 2] && s[3]
                    == h@[i + 3]);
                assert(s[4] == h@[i + 4] && s[5] == h@[i + 5] && s[6] == h@[i + 6] && s[7]
                    == h@[i + 7]);
            }
        }
    }
    r
}

fn find_gpt_signature(h: &[u8]) -> (r: bool)
    ensures
        r == has_gpt_signature(h@),
{
    if h.len() < 1024 {
        return false;
    }
    let mut i: usize = 0;
    while i <= 1016
        invariant
            h.len() >= 1024,
            i <= 1017,
            forall|k: int| 0 <= k < i ==> #[trigger] h@.subrange(k, k + 8) != gpt_signature(),
        decreases 1017 - i,
    {
        if gpt_signature_at(h, i) {
            return true;
        }
        i += 1;
    }
    false
}

/// The kind of an image judged by its first bytes (the caller reads up to
/// 8192 of them).
pub fn image_kind(head: &[u8]) -> (r: ImageKind)
    ensures
        r == spec_image_kind(head@),
{
    if head.len() == 0 {
        return ImageKind::Empty;
    }
    if starts_with_bytes(head, &vec![0x41u8, 0x4e, 0x44, 0x52, 0x4f, 0x49, 0x44, 0x21]) {
        return ImageKind::AndroidBootOrRecoveryImage;
    }
    if starts_with_bytes(head, &vec![0x41u8, 0x56, 0x42, 0x30]) {
        return ImageKind::AndroidVbmetaImage;
    }
    if starts_with_bytes(head, &vec![0x3au8, 0xff, 0x26, 0xed]) {
        return ImageKind::AndroidSparseImage;
    }
    if starts_with_bytes(head, &vec![0x45u8, 0x4c, 0x46]) || starts_with_bytes(
        head,
        &vec![0x7fu8, 0x45, 0x4c, 0x46],
    ) {
        return ImageKind::Elf;
    }
    if head.len() >= 0x43a && ((head[0x438] == 0x53 && head[0x439] == 0xef) || (head[0x438] == 0xef
        && head[0x439] == 0x53)) {
        return ImageKind::PossibleExtFilesystem;
    }
    if find_gpt_signature(head) {
        return ImageKind::GptOrDiskImage;
    }
    ImageKind::RawOrUnknown
}

/// The name of each image kind.
pub open spec fn image_kind_text(k: ImageKind) -> Seq<char> {
    match k {
        ImageKind::Empty => "empty"@,
        ImageKind::AndroidBootOrRecoveryImage => "android_boot_or_recovery_image"@,
        ImageKind::AndroidVbmetaImage => "android_vbmeta_image"@,
        ImageKind::AndroidSparseImage => "android_sparse_image"@,
        ImageKind::Elf => "elf"@,
        ImageKind::PossibleExtFilesystem => "possible_ext_filesystem"@,
        ImageKind::GptOrDiskImage => "gpt_or_disk_image"@,
        ImageKind::RawOrUnknown => "raw_or_unknown"@,
    }
}

impl ImageKind {
    /// The kind's name as reported to users.
    pub fn as_str(self) -> (r: &'static str)
        ensures
            r@ == image_kind_text(self),
    {
        match self {
            ImageKind::Empty => "empty",
            ImageKind::AndroidBootOrRecoveryImage => "android_boot_or_recovery_image",
            ImageKind::AndroidVbmetaImage => "android_vbmeta_image",
            ImageKind::AndroidSparseImage => "android_sparse_image",
            ImageKind::Elf => "elf",
            ImageKind::PossibleExtFilesystem => "possible_ext_filesystem",
            ImageKind::GptOrDiskImage => "gpt_or_disk_image",
            ImageKind::RawOrUnknown => "raw_or_unknown",
        }
    }
}

} // verus!

verus! {

proof fn lemma_image_kind_names_distinct()
    ensures
        forall|a: ImageKind, b: ImageKind| #[trigger] image_kind_text(a) == #[trigger] image_kind_text(b) ==> a == b,
{
    reveal_strlit("empty");
    reveal_strlit("android_boot_or_recovery_image");
    reveal_strlit("android_vbmeta_image");
    reveal_strlit("android_sparse_image");
    reveal_strlit("elf");
    reveal_strlit("possible_ext_filesystem");
    reveal_strlit("gpt_or_disk_image");
    reveal_strlit("raw_or_unknown");
    assert("android_vbmeta_image"@[8] != "android_sparse_image"@[8]);
    assert forall|a: ImageKind, b: ImageKind| #[trigger] image_kind_text(a) == #[trigger] image_kind_text(b) implies a == b by {
        if a != b {
            assert(image_kind_text(a).len() != image_kind_text(b).len() || image_kind_text(a)[8] != image_kind_text(b)[8]);
        }
    }
}

/// Each reported image name stands for the magic it was detected by, and
/// no two kinds share a name: an image is reported as
/// `android_boot_or_recovery_image` exactly when it starts with `ANDROID!`,
/// as `android_vbmeta_image` exactly when it starts with `AVB0`, as
/// `android_sparse_image` exactly when it starts with the sparse magic, and
/// as `empty` exactly when it has no bytes.
pub proof fn law_image_names_follow_magic(h: Seq<u8>)
    ensures
        image_kind_text(spec_image_kind(h)) == "android_boot_or_recovery_image"@ <==> bytes_start_with(
            h,
            android_boot_magic(),
        ),
        image_kind_text(spec_image_kind(h)) == "android_vbmeta_image"@ <==> bytes_start_with(h, avb_magic()),
        image_kind_text(spec_image_kind(h)) == "android_sparse_image"@ <==> bytes_start_with(h, sparse_magic()),
        image_kind_text(spec_image_kind(h)) == "empty"@ <==> h.len() == 0,
        forall|a: ImageKind, b: ImageKind| #[trigger] image_kind_text(a) == #[trigger] image_kind_text(b) ==> a == b,
{
    lemma_image_kind_names_distinct();
    assert(image_kind_text(ImageKind::AndroidBootOrRecoveryImage) == "android_boot_or_recovery_image"@);
    assert(image_kind_text(ImageKind::AndroidVbmetaImage) == "android_vbmeta_image"@);
    assert(image_kind_text(ImageKind::AndroidSparseImage) == "android_sparse_image"@);
    assert(image_kind_text(ImageKind::Empty) == "empty"@);
    if bytes_start_with(h, avb_magic()) {
        assert(h.take(4)[1] == 0x56u8);
        assert(h[1] == 0x56u8);
        if bytes_start_with(h, android_boot_magic()) {
            assert(h.take(8)[1] == h[1]);
        }
    }
    if bytes_start_with(h, sparse_magic()) {
        assert(h.take(4)[0] == h[0]);
        if bytes_start_with(h, android_boot_magic()) {
            assert(h.take(8)[0] == h[0]);
        }
        if bytes_start_with(h, avb_magic()) {
            assert(h.take(4)[0] == h[0]);
        }
    }
}

} // verus!
