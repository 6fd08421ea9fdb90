//! Verified string utilities: equality, search, case folding, replacement,
//! splitting, joining, and decimal conversion. Everything downstream (maven
//! coordinate handling, rule evaluation, argument substitution) is specified
//! in terms of the spec functions defined here.
use vstd::prelude::*;

verus! {

/// The views of a sequence of owned strings.
pub open spec fn seq_views(v: Seq<String>) -> Seq<Seq<char>> {
    v.map_values(|s: String| s@)
}

/// Relies on String::push: appends exactly one character.
#[verifier::external_body]
pub fn push_char(s: &mut String, c: char)
    ensures
        final(s)@ == old(s)@.push(c),
{
    s.push(c);
}

/// Character-by-character string equality.
pub fn str_eq(a: &str, b: &str) -> (r: bool)
    ensures
        r == (a@ == b@),
{
    let alen = a.unicode_len();
    let blen = b.unicode_len();
    if alen != blen {
        return false;
    }
    let mut i: usize = 0;
    while i < alen
        invariant
            i <= alen,
            alen == a@.len(),
            alen == b@.len(),
            forall|j: int| 0 <= j < i ==> a@[j] == b@[j],
        decreases alen - i,
    {
        if a.get_char(i) != b.get_char(i) {
            return false;
        }
        i += 1;
    }
    proof {
        assert(a@ =~= b@);
    }
    true
}

/// ASCII lowercase of one character; other characters are unchanged.
pub open spec fn lower_char(c: char) -> char {
    if 'A' <= c && c <= 'Z' {
        ((c as u8) + 32) as char
    } else {
        c
    }
}

/// ASCII lowercase of a character sequence.
pub open spec fn lower_seq(s: Seq<char>) -> Seq<char> {
    s.map_values(|c: char| lower_char(c))
}

fn to_lower_char(c: char) -> (r: char)
    ensures
        r == lower_char(c),
{
    if 'A' <= c && c <= 'Z' {
        ((c as u8) + 32) as char
    } else {
        c
    }
}

/// ASCII lowercase of a string.
pub fn to_ascii_lowercase(s: &str) -> (r: String)
    ensures
        r@ == lower_seq(s@),
{
    let len = s.unicode_len();
    let mut out = String::new();
    let mut i: usize = 0;
    while i < len
        invariant
            i <= len,
            len == s@.len(),
            out@ == lower_seq(s@.take(i as int)),
        decreases len - i,
    {
        let c = to_lower_char(s.get_char(i));
        push_char(&mut out, c);
        proof {
            assert(lower_seq(s@.take(i + 1)) =~= lower_seq(s@.take(i as int)).push(lower_char(
                s@[i as int],
            )));
        }
        i += 1;
    }
    proof {
        assert(s@.take(len as int) =~= s@);
    }
    out
}

/// Whether `p` occurs as a contiguous subsequence of `s`.
pub open spec fn spec_contains(s: Seq<char>, p: Seq<char>) -> bool
    decreases s.len(),
{
    if p.len() > s.len() {
        false
    } else if s.subrange(0, p.len() as int) == p {
        true
    } else if s.len() == 0 {
        false
    } else {
        spec_contains(s.skip(1), p)
    }
}

/// Substring search, mirroring `spec_contains`.
pub fn contains_sub(s: &str, p: &str) -> (r: bool)
    ensures
        r == spec_contains(s@, p@),
    decreases s@.len(),
{
    let slen = s.unicode_len();
    let plen = p.unicode_len();
    if plen > slen {
        return false;
    }
    if str_eq(s.substring_char(0, plen), p) {
        return true;
    }
    if slen == 0 {
        return false;
    }
    contains_sub(s.substring_char(1, slen), p)
}

/// Whether `s` starts with `p`.
pub open spec fn spec_starts_with(s: Seq<char>, p: Seq<char>) -> bool {
    p.len() <= s.len() && s.subrange(0, p.len() as int) == p
}

pub fn starts_with_str(s: &str, p: &str) -> (r: bool)
    ensures
        r == spec_starts_with(s@, p@),
{
    let slen = s.unicode_len();
    let plen = p.unicode_len();
    if plen > slen {
        return false;
    }
    str_eq(s.substring_char(0, plen), p)
}

/// Whether `s` ends with `p`.
pub open spec fn spec_ends_with(s: Seq<char>, p: Seq<char>) -> bool {
    p.len() <= s.len() && s.subrange(s.len() - p.len(), s.len() as int) == p
}

pub fn ends_with_str(s: &str, p: &str) -> (r: bool)
    ensures
        r == spec_ends_with(s@, p@),
{
    let slen = s.unicode_len();
    let plen = p.unicode_len();
    if plen > slen {
        return false;
    }
    str_eq(s.substring_char(slen - plen, slen), p)
}

/// Replacement of every non-overlapping occurrence of `f` by `t`, scanning
/// left to right.
pub open spec fn spec_replace(s: Seq<char>, f: Seq<char>, t: Seq<char>) -> Seq<char>
    decreases s.len(),
    when f.len() > 0
{
    if s.len() < f.len() {
        s
    } else if s.subrange(0, f.len() as int) == f {
        t + spec_replace(s.skip(f.len() as int), f, t)
    } else {
        s.subrange(0, 1) + spec_replace(s.skip(1), f, t)
    }
}

/// String replacement, mirroring `spec_replace`.
pub fn replace_all(s: &str, f: &str, t: &str) -> (r: String)
    requires
        f@.len() > 0,
    ensures
        r@ == spec_replace(s@, f@, t@),
    decreases s@.len(),
{
    let slen = s.unicode_len();
    let flen = f.unicode_len();
    if slen < flen {
        return s.to_owned();
    }
    if str_eq(s.substring_char(0, flen), f) {
        let rest = replace_all(s.substring_char(flen, slen), f, t);
        let mut out = t.to_owned();
        out.append(rest.as_str());
        out
    } else {
        let mut out = s.substring_char(0, 1).to_owned();
        let rest = replace_all(s.substring_char(1, slen), f, t);
        out.append(rest.as_str());
        out
    }
}

/// Index of the first occurrence of `c` in `s`, or -1 when absent.
pub open spec fn spec_index_of(s: Seq<char>, c: char) -> int
    decreases s.len(),
{
    if s.len() == 0 {
        -1
    } else if s[0] == c {
        0
    } else if spec_index_of(s.skip(1), c) == -1 {
        -1
    } else {
        1 + spec_index_of(s.skip(1), c)
    }
}

pub proof fn lemma_index_of_bounds(s: Seq<char>, c: char)
    ensures
        -1 <= spec_index_of(s, c) < s.len(),
        spec_index_of(s, c) >= 0 ==> s[spec_index_of(s, c)] == c,
    decreases s.len(),
{
    if s.len() > 0 && s[0] != c {
        lemma_index_of_bounds(s.skip(1), c);
    }
}

/// First index of `c` in `s`, mirroring `spec_index_of`.
pub fn index_of(s: &str, c: char) -> (r: Option<usize>)
    ensures
        match r {
            Some(i) => spec_index_of(s@, c) == i && i < s@.len(),
            None => spec_index_of(s@, c) == -1,
        },
    decreases s@.len(),
{
    let len = s.unicode_len();
    if len == 0 {
        return None;
    }
    if s.get_char(0) == c {
        return Some(0);
    }
    match index_of(s.substring_char(1, len), c) {
        None => None,
        Some(i) => Some(i + 1),
    }
}

/// Splitting on a separator character. The separator itself appears in no
/// piece, and an absent separator yields the whole string as one piece.
pub open spec fn spec_split(s: Seq<char>, sep: char) -> Seq<Seq<char>>
    decreases s.len(),
{
    let i = spec_index_of(s, sep);
    if i == -1 {
        seq![s]
    } else if 0 <= i < s.len() {
        seq![s.subrange(0, i)] + spec_split(s.skip(i + 1), sep)
    } else {
        seq![s]
    }
}

/// Splits `s` on `sep`, mirroring `spec_split`.
pub fn split_char(s: &str, sep: char) -> (r: Vec<String>)
    ensures
        seq_views(r@) == spec_split(s@, sep),
        r@.len() >= 1,
    decreases s@.len(),
{
    proof {
        lemma_index_of_bounds(s@, sep);
    }
    let len = s.unicode_len();
    match index_of(s, sep) {
        None => {
            let mut out: Vec<String> = Vec::new();
            out.push(s.to_owned());
            proof {
                assert(seq_views(out@) =~= seq![s@]);
            }
            out
        },
        Some(i) => {
            let head = s.substring_char(0, i).to_owned();
            let rest = split_char(s.substring_char(i + 1, len), sep);
            let mut out: Vec<String> = Vec::new();
            out.push(head);
            let mut j: usize = 0;
            while j < rest.len()
                invariant
                    j <= rest@.len(),
                    out@.len() == j + 1,
                    seq_views(out@) =~= seq![s@.subrange(0, i as int)] + seq_views(
                        rest@.take(j as int),
                    ),
                decreases rest@.len() - j,
            {
                let ghost prev = out@;
                out.push(rest[j].clone());
                proof {
                    assert(out@ == prev.push(rest@[j as int]));
                    assert(seq_views(prev.push(rest@[j as int])) =~= seq_views(prev).push(
                        rest@[j as int]@,
                    ));
                    assert(seq_views(rest@.take(j + 1)) =~= seq_views(rest@.take(j as int)).push(
                        rest@[j as int]@,
                    ));
                    assert(seq_views(out@) =~= seq![s@.subrange(0, i as int)] + seq_views(
                        rest@.take(j + 1),
                    ));
                }
                j += 1;
            }
            proof {
                assert(rest@.take(rest@.len() as int) =~= rest@);
                assert(seq_views(out@) =~= spec_split(s@, sep));
            }
            out
        },
    }
}

/// Joins the entries of `vec` with `separator` after each entry.
pub open spec fn spec_joined(vec: Seq<Seq<char>>, separator: Seq<char>) -> Seq<char>
    decreases vec.len(),
{
    if vec.len() == 0 {
        Seq::empty()
    } else {
        vec[0] + separator + spec_joined(vec.skip(1), separator)
    }
}

/// A join of a non-empty list is at least as long as the separator.
pub proof fn lemma_joined_len(vec: Seq<Seq<char>>, separator: Seq<char>)
    ensures
        vec.len() > 0 ==> spec_joined(vec, separator).len() >= separator.len() + vec[0].len(),
{
}

/// Concatenates the strings of `vec`, putting `separator` after every entry
/// and then removing the last character, mirroring a builder that always
/// appends the separator and trims once at the end.
pub fn vec_to_string(vec: Vec<String>, separator: String) -> (r: String)
    requires
        spec_joined(seq_views(vec@), separator@).len() > 0,
    ensures
        r@ == spec_joined(seq_views(vec@), separator@).drop_last(),
{
    let ghost full = spec_joined(seq_views(vec@), separator@);
    let mut builder = String::new();
    let mut i: usize = 0;
    while i < vec.len()
        invariant
            i <= vec@.len(),
            builder@ == spec_joined(seq_views(vec@).take(i as int), separator@),
        decreases vec@.len() - i,
    {
        proof {
            lemma_joined_push(seq_views(vec@), separator@, i as int);
        }
        builder.append(vec[i].as_str());
        builder.append(separator.as_str());
        i += 1;
    }
    proof {
        assert(seq_views(vec@).take(vec@.len() as int) =~= seq_views(vec@));
    }
    let len = builder.as_str().unicode_len();
    let r = builder.as_str().substring_char(0, len - 1);
    proof {
        assert(r@ =~= full.drop_last());
    }
    r.to_owned()
}

proof fn lemma_joined_push(vec: Seq<Seq<char>>, separator: Seq<char>, i: int)
    requires
        0 <= i < vec.len(),
    ensures
        spec_joined(vec.take(i + 1), separator) == spec_joined(vec.take(i), separator) + vec[i]
            + separator,
    decreases i,
{
    if i == 0 {
        assert(vec.take(1) =~= seq![vec[0]]);
        assert(vec.take(0) =~= Seq::<Seq<char>>::empty());
        assert(seq![vec[0]].skip(1) =~= Seq::<Seq<char>>::empty());
        assert(spec_joined(Seq::<Seq<char>>::empty(), separator) == Seq::<char>::empty());
        assert(spec_joined(seq![vec[0]], separator) == seq![vec[0]][0] + separator + spec_joined(
            seq![vec[0]].skip(1),
            separator,
        ));
        assert(seq![vec[0]][0] == vec[0]);
        assert(spec_joined(vec.take(1), separator) =~= spec_joined(vec.take(0), separator) + vec[0]
            + separator);
    } else {
        lemma_joined_push(vec.skip(1), separator, i - 1);
        assert(vec.take(i + 1).skip(1) =~= vec.skip(1).take(i));
        assert(vec.take(i).skip(1) =~= vec.skip(1).take(i - 1));
        assert(vec.skip(1)[i - 1] == vec[i]);
        assert(spec_joined(vec.take(i + 1), separator) == vec[0] + separator + spec_joined(
            vec.skip(1).take(i),
            separator,
        ));
        assert(spec_joined(vec.take(i), separator) == vec[0] + separator + spec_joined(
            vec.skip(1).take(i - 1),
            separator,
        ));
        assert(spec_joined(vec.take(i), separator) + vec[i] + separator =~= vec[0] + separator + (
        spec_joined(vec.skip(1).take(i - 1), separator) + vec[i] + separator));
    }
}

/// The decimal digit character for `d`.
pub open spec fn spec_digit(d: int) -> char {
    if d == 0 {
        '0'
    } else if d == 1 {
        '1'
    } else if d == 2 {
        '2'
    } else if d == 3 {
        '3'
    } else if d == 4 {
        '4'
    } else if d == 5 {
        '5'
    } else if d == 6 {
        '6'
    } else if d == 7 {
        '7'
    } else if d == 8 {
        '8'
    } else {
        '9'
    }
}

/// The decimal rendering of a non-negative integer.
pub open spec fn spec_u64_str(n: int) -> Seq<char>
    decreases n,
{
    if n < 10 {
        seq![spec_digit(n)]
    } else {
        spec_u64_str(n / 10).push(spec_digit(n % 10))
    }
}

fn digit_char(d: u64) -> (c: char)
    requires
        d < 10,
    ensures
        c == spec_digit(d as int),
{
    if d == 0 {
        '0'
    } else if d == 1 {
        '1'
    } else if d == 2 {
        '2'
    } else if d == 3 {
        '3'
    } else if d == 4 {
        '4'
    } else if d == 5 {
        '5'
    } else if d == 6 {
        '6'
    } else if d == 7 {
        '7'
    } else if d == 8 {
        '8'
    } else {
        '9'
    }
}

/// Renders `n` in decimal.
pub fn u64_to_string(n: u64) -> (r: String)
    ensures
        r@ == spec_u64_str(n as int),
    decreases n,
{
    if n < 10 {
        let mut out = String::new();
        push_char(&mut out, digit_char(n));
        proof {
            assert(out@ =~= seq![spec_digit(n as int)]);
        }
        out
    } else {
        let mut out = u64_to_string(n / 10);
        push_char(&mut out, digit_char(n % 10));
        out
    }
}

/// Whether the view of some entry of `v` equals `s`.
pub fn vec_contains_str(v: &Vec<String>, s: &str) -> (r: bool)
    ensures
        r == seq_views(v@).contains(s@),
{
    let mut i: usize = 0;
    while i < v.len()
        invariant
            i <= v@.len(),
            forall|j: int| 0 <= j < i ==> seq_views(v@)[j] != s@,
        decreases v@.len() - i,
    {
        if str_eq(v[i].as_str(), s) {
            proof {
                assert(seq_views(v@)[i as int] == s@);
            }
            return true;
        }
        i += 1;
    }
    proof {
        if seq_views(v@).contains(s@) {
            let j = choose|j: int| 0 <= j < seq_views(v@).len() && seq_views(v@)[j] == s@;
            assert(seq_views(v@)[j] != s@);
        }
    }
    false
}

/// Whether `s` is a non-empty run of decimal digits.
pub open spec fn spec_is_digits(s: Seq<char>) -> bool {
    s.len() > 0 && forall|i: int| 0 <= i < s.len() ==> '0' <= #[trigger] s[i] <= '9'
}

/// The numeric value of a run of decimal digits.
pub open spec fn spec_digits_val(s: Seq<char>) -> int
    decreases s.len(),
{
    if s.len() == 0 {
        0
    } else {
        spec_digits_val(s.drop_last()) * 10 + (s.last() as int - '0' as int)
    }
}

proof fn lemma_digits_val_monotonic(s: Seq<char>, i: int)
    requires
        0 <= i <= s.len(),
        spec_is_digits(s),
    ensures
        spec_digits_val(s.take(i)) <= spec_digits_val(s),
    decreases s.len() - i,
{
    if i < s.len() {
        assert(s.take(i + 1).drop_last() =~= s.take(i));
        assert(s.take(i + 1).last() == s[i]);
        lemma_digits_val_nonneg(s.take(i));
        assert(spec_digits_val(s.take(i)) <= spec_digits_val(s.take(i + 1)));
        lemma_digits_val_monotonic(s, i + 1);
        assert(s.take(s.len() as int) =~= s);
    } else {
        assert(s.take(s.len() as int) =~= s);
    }
}

proof fn lemma_digits_val_nonneg(s: Seq<char>)
    requires
        forall|i: int| 0 <= i < s.len() ==> '0' <= #[trigger] s[i] <= '9',
    ensures
        spec_digits_val(s) >= 0,
    decreases s.len(),
{
    if s.len() > 0 {
        lemma_digits_val_nonneg(s.drop_last());
    }
}

/// Parses a decimal number. Returns `Some` exactly when `s` is a non-empty
/// digit run whose value fits in `u32`.
pub fn parse_u32(s: &str) -> (r: Option<u32>)
    ensures
        match r {
            Some(v) => spec_is_digits(s@) && v as int == spec_digits_val(s@),
            None => !spec_is_digits(s@) || spec_digits_val(s@) > u32::MAX as int,
        },
{
    let len = s.unicode_len();
    if len == 0 {
        return None;
    }
    let mut acc: u64 = 0;
    let mut i: usize = 0;
    while i < len
        invariant
            i <= len,
            len == s@.len(),
            forall|j: int| 0 <= j < i ==> '0' <= #[trigger] s@[j] <= '9',
            acc as int == spec_digits_val(s@.take(i as int)),
            acc <= u32::MAX,
        decreases len - i,
    {
        let c = s.get_char(i);
        if !('0' <= c && c <= '9') {
            return None;
        }
        let d = (c as u32) - ('0' as u32);
        let next: u64 = acc * 10 + (d as u64);
        proof {
            assert(s@.take(i + 1).drop_last() =~= s@.take(i as int));
            assert(s@.take(i + 1).last() == s@[i as int]);
        }
        if next > u32::MAX as u64 {
            let mut k: usize = i + 1;
            while k < len
                invariant
                    i < k <= len,
                    len == s@.len(),
                    forall|j: int| 0 <= j < k ==> '0' <= #[trigger] s@[j] <= '9',
                decreases len - k,
            {
                let c2 = s.get_char(k);
                if !('0' <= c2 && c2 <= '9') {
                    return None;
                }
                k += 1;
            }
            proof {
                lemma_digits_val_monotonic(s@, i + 1);
            }
            return None;
        }
        acc = next;
        i += 1;
    }
    proof {
        assert(s@.take(len as int) =~= s@);
    }
    Some(acc as u32)
}

} // verus!
