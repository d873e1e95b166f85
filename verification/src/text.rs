//! Character-level helpers: ASCII case folding, Unicode whitespace trimming,
//! prefix and substring tests, all specified over `Seq<char>`.
use vstd::prelude::*;

verus! {

/// ASCII lowercase of a single character; other characters are unchanged.
pub open spec fn ascii_lower(c: char) -> char {
    if 'A' <= c && c <= 'Z' {
        ((c as u32) + 32) as char
    } else {
        c
    }
}

/// ASCII lowercase of every character of `s`.
pub open spec fn lower_seq(s: Seq<char>) -> Seq<char> {
    Seq::new(s.len(), |i: int| ascii_lower(s[i]))
}

/// The characters that carry the Unicode `White_Space` property, which is
/// what `char::is_whitespace` and `str::trim` test.
pub open spec fn is_unicode_ws(c: char) -> bool {
    let u = c as u32;
    ||| (0x09 <= u && u <= 0x0d)
    ||| u == 0x20
    ||| u == 0x85
    ||| u == 0xa0
    ||| u == 0x1680
    ||| (0x2000 <= u && u <= 0x200a)
    ||| u == 0x2028
    ||| u == 0x2029
    ||| u == 0x202f
    ||| u == 0x205f
    ||| u == 0x3000
}

/// `s` without its leading Unicode whitespace.
pub open spec fn trim_start(s: Seq<char>) -> Seq<char>
    decreases s.len(),
{
    if s.len() > 0 && is_unicode_ws(s[0]) {
        trim_start(s.drop_first())
    } else {
        s
    }
}

/// `s` without its trailing Unicode whitespace.
pub open spec fn trim_end(s: Seq<char>) -> Seq<char>
    decreases s.len(),
{
    if s.len() > 0 && is_unicode_ws(s.last()) {
        trim_end(s.drop_last())
    } else {
        s
    }
}

/// `s` without leading and trailing Unicode whitespace (`str::trim`).
pub open spec fn trim(s: Seq<char>) -> Seq<char> {
    trim_end(trim_start(s))
}

/// The characters of each string, in order.
pub open spec fn string_views(v: Seq<String>) -> Seq<Seq<char>> {
    v.map_values(|s: String| s@)
}

/// `p` is a prefix of `s`.
pub open spec fn has_prefix(s: Seq<char>, p: Seq<char>) -> bool {
    p.len() <= s.len() && s.subrange(0, p.len() as int) == p
}

/// `n` occurs somewhere in `s` as a contiguous run.
pub open spec fn contains_seq(s: Seq<char>, n: Seq<char>) -> bool {
    exists|i: int| 0 <= i && i + n.len() <= s.len() && #[trigger] s.subrange(i, i + n.len()) == n
}

/// The characters of `s`, in order.
pub fn chars_of(s: &str) -> (v: Vec<char>)
    ensures
        v@ == s@,
{
    broadcast use vstd::string::group_string_axioms;

    let mut v: Vec<char> = Vec::new();
    for c in it: s.chars()
        invariant
            v@ == it.seq().take(it.index() as int),
    {
        v.push(c);
    }
    v
}

/// ASCII lowercase of one character.
pub fn ascii_lower_char(c: char) -> (r: char)
    ensures
        r == ascii_lower(c),
{
    if 'A' <= c && c <= 'Z' {
        let b: u8 = (c as u8) + 32;
        b as char
    } else {
        c
    }
}

/// Whether `c` carries the Unicode `White_Space` property.
pub fn is_ws(c: char) -> (r: bool)
    ensures
        r == is_unicode_ws(c),
{
    let u: u32 = c as u32;
    (0x09 <= u && u <= 0x0d) || u == 0x20 || u == 0x85 || u == 0xa0 || u == 0x1680 || (0x2000
        <= u && u <= 0x200a) || u == 0x2028 || u == 0x2029 || u == 0x202f || u == 0x205f || u
        == 0x3000
}

/// Characters `a[i..j]` equal `b` exactly.
pub fn range_eq(a: &Vec<char>, i: usize, j: usize, b: &Vec<char>) -> (r: bool)
    requires
        i <= j <= a.len(),
    ensures
        r == (a@.subrange(i as int, j as int) == b@),
{
    if j - i != b.len() {
        return false;
    }
    let mut k: usize = 0;
    while k < b.len()
        invariant
            i <= j <= a.len(),
            j - i == b.len(),
            k <= b.len(),
            forall|m: int| 0 <= m < k ==> a@[i + m] == b@[m],
        decreases b.len() - k,
    {
        if a[i + k] != b[k] {
            assert(a@.subrange(i as int, j as int)[k as int] != b@[k as int]);
            return false;
        }
        k += 1;
    }
    assert(a@.subrange(i as int, j as int) =~= b@);
    true
}

/// Characters `a[i..j]`, ASCII-lowercased, equal `b` exactly.
pub fn range_lower_eq(a: &Vec<char>, i: usize, j: usize, b: &Vec<char>) -> (r: bool)
    requires
        i <= j <= a.len(),
    ensures
        r == (lower_seq(a@.subrange(i as int, j as int)) == b@),
{
    if j - i != b.len() {
        return false;
    }
    let mut k: usize = 0;
    while k < b.len()
        invariant
            i <= j <= a.len(),
            j - i == b.len(),
            k <= b.len(),
            forall|m: int| 0 <= m < k ==> ascii_lower(a@[i + m]) == b@[m],
        decreases b.len() - k,
    {
        if ascii_lower_char(a[i + k]) != b[k] {
            assert(lower_seq(a@.subrange(i as int, j as int))[k as int] != b@[k as int]);
            return false;
        }
        k += 1;
    }
    assert(lower_seq(a@.subrange(i as int, j as int)) =~= b@);
    true
}

/// `a == b` on the characters of two strings.
pub fn str_eq(a: &str, b: &str) -> (r: bool)
    ensures
        r == (a@ == b@),
{
    let av = chars_of(a);
    let bv = chars_of(b);
    let r = range_eq(&av, 0, av.len(), &bv);
    assert(av@.subrange(0, av@.len() as int) =~= av@);
    r
}

proof fn lemma_trim_start_skip(s: Seq<char>, i: int)
    requires
        0 <= i <= s.len(),
        forall|k: int| 0 <= k < i ==> is_unicode_ws(#[trigger] s[k]),
    ensures
        trim_start(s) == trim_start(s.subrange(i, s.len() as int)),
    decreases i,
{
    if i > 0 {
        assert(s.drop_first() =~= s.subrange(1, s.len() as int));
        lemma_trim_start_skip(s.drop_first(), i - 1);
        assert(s.drop_first().subrange(i - 1, s.drop_first().len() as int) =~= s.subrange(
            i,
            s.len() as int,
        ));
    } else {
        assert(s.subrange(0, s.len() as int) =~= s);
    }
}

proof fn lemma_trim_end_skip(s: Seq<char>, j: int)
    requires
        0 <= j <= s.len(),
        forall|k: int| j <= k < s.len() ==> is_unicode_ws(#[trigger] s[k]),
    ensures
        trim_end(s) == trim_end(s.subrange(0, j)),
    decreases s.len() - j,
{
    if j < s.len() {
        assert(s.drop_last() =~= s.subrange(0, s.len() - 1));
        lemma_trim_end_skip(s.drop_last(), j);
        assert(s.drop_last().subrange(0, j) =~= s.subrange(0, j));
    } else {
        assert(s.subrange(0, j) =~= s);
    }
}

/// Bounds `(i, j)` such that `v[i..j]` is `v` trimmed of Unicode whitespace.
pub fn trim_bounds(v: &Vec<char>) -> (r: (usize, usize))
    ensures
        r.0 <= r.1 <= v.len(),
        v@.subrange(r.0 as int, r.1 as int) == trim(v@),
{
    let mut i: usize = 0;
    while i < v.len() && is_ws(v[i])
        invariant
            i <= v.len(),
            forall|k: int| 0 <= k < i ==> is_unicode_ws(#[trigger] v@[k]),
        decreases v.len() - i,
    {
        i += 1;
    }
    let ghost rest = v@.subrange(i as int, v.len() as int);
    proof {
        lemma_trim_start_skip(v@, i as int);
        if rest.len() > 0 {
            assert(rest[0] == v@[i as int]);
        }
        assert(trim_start(rest) == rest);
    }
    let mut j: usize = v.len();
    while j > i && is_ws(v[j - 1])
        invariant
            i <= j <= v.len(),
            forall|k: int| j <= k < v.len() ==> is_unicode_ws(#[trigger] v@[k]),
        decreases j,
    {
        j -= 1;
    }
    proof {
        let jj = j - i;
        assert forall|k: int| jj <= k < rest.len() implies is_unicode_ws(#[trigger] rest[k]) by {
            assert(rest[k] == v@[i + k]);
        }
        lemma_trim_end_skip(rest, jj as int);
        assert(rest.subrange(0, jj as int) =~= v@.subrange(i as int, j as int));
        let t = v@.subrange(i as int, j as int);
        if t.len() > 0 {
            assert(t.last() == v@[j - 1]);
        }
        assert(trim_end(t) == t);
    }
    (i, j)
}

/// `n` occurs in `v[i..j]`.
pub fn range_contains(v: &Vec<char>, i: usize, j: usize, n: &Vec<char>) -> (r: bool)
    requires
        i <= j <= v.len(),
    ensures
        r == contains_seq(v@.subrange(i as int, j as int), n@),
{
    let ghost s = v@.subrange(i as int, j as int);
    if n.len() > j - i {
        return false;
    }
    if n.len() == 0 {
        assert(s.subrange(0int, 0int + n@.len()) =~= n@);
        return true;
    }
    let mut k: usize = i;
    while k <= j - n.len()
        invariant
            i <= k <= j - n.len() + 1,
            n.len() > 0,
            n.len() <= j - i,
            i <= j <= v.len(),
            s == v@.subrange(i as int, j as int),
            forall|m: int|
                0 <= m < k - i && m + n.len() <= s.len() ==> #[trigger] s.subrange(
                    m,
                    m + n.len(),
                ) != n@,
        decreases j - k,
    {
        if range_eq(v, k, k + n.len(), n) {
            assert(s.subrange(k - i, k - i + n.len()) =~= v@.subrange(k as int, k + n.len()));
            return true;
        }
        assert(s.subrange(k - i, k - i + n.len()) =~= v@.subrange(k as int, k + n.len()));
        k += 1;
    }
    false
}

} // verus!

verus! {

/// Appends one character to a `String` (`String::push`).
#[verifier::external_body]
fn push_char(s: &mut String, c: char)
    ensures
        final(s)@ == old(s)@.push(c),
{
    s.push(c);
}

/// A `String` holding exactly the characters of `v`.
pub fn string_from_chars(v: &Vec<char>) -> (r: String)
    ensures
        r@ == v@,
{
    let mut s = String::new();
    let mut i: usize = 0;
    while i < v.len()
        invariant
            i <= v.len(),
            s@ == v@.take(i as int),
        decreases v.len() - i,
    {
        push_char(&mut s, v[i]);
        assert(v@.take(i + 1) =~= v@.take(i as int).push(v@[i as int]));
        i += 1;
    }
    assert(v@.take(v.len() as int) =~= v@);
    s
}

/// The ASCII digit for a value below ten.
pub open spec fn digit_char(d: nat) -> char {
    ((d + 48) as u8) as char
}

/// Decimal representation of `n` without leading zeros (`0` for zero).
pub open spec fn decimal_chars(n: nat) -> Seq<char>
    decreases n,
{
    if n < 10 {
        seq![digit_char(n)]
    } else {
        decimal_chars(n / 10).push(digit_char(n % 10))
    }
}

fn decimal_into(n: u64, out: &mut Vec<char>)
    ensures
        final(out)@ == old(out)@ + decimal_chars(n as nat),
    decreases n,
{
    if n >= 10 {
        decimal_into(n / 10, out);
    }
    let d: u8 = (n % 10) as u8;
    let c: char = (d + 48) as char;
    out.push(c);
    proof {
        if n < 10 {
            assert(decimal_chars(n as nat) =~= seq![digit_char(n as nat)]);
        }
    }
}

/// `n` written in decimal, as `u64::to_string` does.
pub fn decimal_string(n: u64) -> (r: String)
    ensures
        r@ == decimal_chars(n as nat),
{
    let mut v: Vec<char> = Vec::new();
    decimal_into(n, &mut v);
    assert(v@ =~= decimal_chars(n as nat));
    string_from_chars(&v)
}

/// `s` with every non-overlapping occurrence of `from`, scanning left to
/// right, replaced by `to` (`str::replace`).
pub open spec fn replace_all(s: Seq<char>, from: Seq<char>, to: Seq<char>) -> Seq<char>
    recommends
        from.len() > 0,
    decreases s.len(),
{
    if s.len() == 0 || from.len() == 0 {
        s
    } else if has_prefix(s, from) {
        to + replace_all(s.skip(from.len() as int), from, to)
    } else {
        seq![s[0]] + replace_all(s.drop_first(), from, to)
    }
}

/// `str::replace` for a non-empty pattern.
pub fn replace_str(s: &str, from: &str, to: &str) -> (r: String)
    requires
        from@.len() > 0,
    ensures
        r@ == replace_all(s@, from@, to@),
{
    let v = chars_of(s);
    let f = chars_of(from);
    let t = chars_of(to);
    let mut out: Vec<char> = Vec::new();
    let mut i: usize = 0;
    assert(v@.skip(0) =~= v@);
    assert(out@ + replace_all(v@.skip(0), f@, t@) =~= replace_all(v@, f@, t@));
    while i < v.len()
        invariant
            i <= v.len(),
            f@ == from@,
            f@.len() > 0,
            out@ + replace_all(v@.skip(i as int), f@, t@) == replace_all(v@, f@, t@),
            t@ == to@,
        decreases v.len() - i,
    {
        let ghost rest = v@.skip(i as int);
        let matches = f.len() <= v.len() - i && range_eq(&v, i, i + f.len(), &f);
        if matches {
            assert(rest.subrange(0, f@.len() as int) =~= v@.subrange(i as int, i + f@.len()));
            assert(has_prefix(rest, f@));
            let ghost base = out@;
            let mut k: usize = 0;
            while k < t.len()
                invariant
                    k <= t.len(),
                    out@ == base + t@.take(k as int),
                decreases t.len() - k,
            {
                out.push(t[k]);
                assert(t@.take(k + 1) =~= t@.take(k as int).push(t@[k as int]));
                k += 1;
            }
            assert(t@.take(t.len() as int) =~= t@);
            assert(rest.skip(f@.len() as int) =~= v@.skip(i + f@.len()));
            assert(replace_all(rest, f@, t@) == t@ + replace_all(rest.skip(f@.len() as int), f@, t@));
            assert(out@ + replace_all(v@.skip(i + f@.len()), f@, t@) =~= base + replace_all(rest, f@, t@));
            i = i + f.len();
        } else {
            proof {
                if f@.len() <= rest.len() {
                    assert(rest.subrange(0, f@.len() as int) =~= v@.subrange(
                        i as int,
                        i + f@.len(),
                    ));
                }
                assert(!has_prefix(rest, f@));
                assert(rest.drop_first() =~= v@.skip(i + 1));
                assert(rest[0] == v@[i as int]);
            }
            let ghost base = out@;
            out.push(v[i]);
            assert(replace_all(rest, f@, t@) == seq![rest[0]] + replace_all(rest.drop_first(), f@, t@));
            assert(out@ + replace_all(v@.skip(i + 1), f@, t@) =~= base + replace_all(rest, f@, t@));
            i = i + 1;
        }
    }
    assert(v@.skip(v.len() as int) =~= Seq::<char>::empty());
    assert(out@ + Seq::<char>::empty() =~= out@);
    string_from_chars(&out)
}

} // verus!

verus! {

/// `a` followed by `b`.
pub fn concat_str(a: &str, b: &str) -> (r: String)
    ensures
        r@ == a@ + b@,
{
    let mut v = chars_of(a);
    let w = chars_of(b);
    let mut i: usize = 0;
    let ghost base = v@;
    while i < w.len()
        invariant
            i <= w.len(),
            v@ == base + w@.take(i as int),
        decreases w.len() - i,
    {
        v.push(w[i]);
        assert(w@.take(i + 1) =~= w@.take(i as int).push(w@[i as int]));
        i += 1;
    }
    assert(w@.take(w.len() as int) =~= w@);
    string_from_chars(&v)
}

/// A `String` with the characters of `s`.
pub fn owned(s: &str) -> (r: String)
    ensures
        r@ == s@,
{
    let v = chars_of(s);
    string_from_chars(&v)
}

} // verus!


verus! {

/// What `str::to_lowercase` gives for a string: the Unicode lowercase
/// mapping of each character, which may be more than one character.
pub uninterp spec fn unicode_lowercase(s: Seq<char>) -> Seq<char>;

/// `str::to_lowercase`. Claimed: the result depends on the characters of
/// `s` alone (Unicode's fixed case tables, no locale).
#[verifier::external_body]
fn to_lowercase_str(s: &str) -> (r: String)
    ensures
        r@ == unicode_lowercase(s@),
{
    s.to_lowercase()
}

/// `s` lowercased by Unicode's rules, as a `String`.
pub fn unicode_lowered(s: &str) -> (r: String)
    ensures
        r@ == unicode_lowercase(s@),
{
    to_lowercase_str(s)
}

} // verus!
