//! Character-level primitives shared by the parsers and the path rules:
//! trimming, ASCII case folding, splitting at a separator and decimal numbers.

use vstd::prelude::*;

verus! {

/// `String::push` of the standard library: the string afterwards is the
/// string before with `ch` appended as its last character.
pub assume_specification[ String::push ](s: &mut String, ch: char)
    ensures
        final(s)@ == old(s)@.push(ch),
;

/// The characters of `s`, in order.
pub fn to_chars(s: &str) -> (out: Vec<char>)
    ensures
        out@ == s@,
{
    let mut out: Vec<char> = Vec::new();
    for c in it: s.chars()
        invariant
            it.seq() == s@,
            out@ == it.seq().subrange(0, it.index() as int),
    {
        out.push(c);
    }
    out
}

/// A string holding exactly the characters of `s`.
pub fn from_chars(s: &[char]) -> (out: String)
    ensures
        out@ == s@,
{
    let mut out = String::new();
    let mut i: usize = 0;
    while i < s.len()
        invariant
            i <= s.len(),
            out@ == s@.subrange(0, i as int),
        decreases s.len() - i,
    {
        out.push(s[i]);
        i += 1;
    }
    out
}

/// White space in the sense of the Unicode `White_Space` property.
pub open spec fn is_space(c: char) -> bool {
    let v = c as u32;
    ||| 0x09 <= v <= 0x0D
    ||| v == 0x20
    ||| v == 0x85
    ||| v == 0xA0
    ||| v == 0x1680
    ||| 0x2000 <= v <= 0x200A
    ||| v == 0x2028
    ||| v == 0x2029
    ||| v == 0x202F
    ||| v == 0x205F
    ||| v == 0x3000
}

/// Whether `c` is white space.
pub fn char_is_space(c: char) -> (b: bool)
    ensures
        b == is_space(c),
{
    let v: u32 = c as u32;
    (0x09 <= v && v <= 0x0D) || v == 0x20 || v == 0x85 || v == 0xA0 || v == 0x1680 || (0x2000 <= v
        && v <= 0x200A) || v == 0x2028 || v == 0x2029 || v == 0x202F || v == 0x205F || v == 0x3000
}

/// First index at or after `i` that holds no white space (the length if none).
pub open spec fn skip_spaces(s: Seq<char>, i: int) -> int
    decreases s.len() - i,
{
    if 0 <= i < s.len() && is_space(s[i]) {
        skip_spaces(s, i + 1)
    } else {
        i
    }
}

/// Smallest end `j' <= j` such that no white space stands directly before it,
/// never going below `lo`.
pub open spec fn skip_spaces_back(s: Seq<char>, lo: int, j: int) -> int
    decreases j,
{
    if lo < j <= s.len() && 0 < j && is_space(s[j - 1]) {
        skip_spaces_back(s, lo, j - 1)
    } else {
        j
    }
}

/// `s` without its leading and trailing white space.
pub open spec fn trimmed(s: Seq<char>) -> Seq<char> {
    let a = skip_spaces(s, 0);
    let b = skip_spaces_back(s, a, s.len() as int);
    s.subrange(a, b)
}

/// Skipping forward passes over white space only, and stops at the first
/// character that is none.
pub proof fn lemma_skip_spaces_bounds(s: Seq<char>, i: int)
    requires
        0 <= i <= s.len(),
    ensures
        i <= skip_spaces(s, i) <= s.len(),
        forall|k: int| i <= k < skip_spaces(s, i) ==> is_space(#[trigger] s[k]),
        skip_spaces(s, i) < s.len() ==> !is_space(s[skip_spaces(s, i)]),
    decreases s.len() - i,
{
    if i < s.len() && is_space(s[i]) {
        lemma_skip_spaces_bounds(s, i + 1);
    }
}

/// Skipping backward passes over white space only, and stops behind the
/// last character that is none.
pub proof fn lemma_skip_spaces_back_bounds(s: Seq<char>, lo: int, j: int)
    requires
        0 <= lo <= j <= s.len(),
    ensures
        lo <= skip_spaces_back(s, lo, j) <= j,
        forall|k: int| skip_spaces_back(s, lo, j) <= k < j ==> is_space(#[trigger] s[k]),
        lo < skip_spaces_back(s, lo, j) ==> !is_space(s[skip_spaces_back(s, lo, j) - 1]),
    decreases j,
{
    if lo < j && is_space(s[j - 1]) {
        lemma_skip_spaces_back_bounds(s, lo, j - 1);
    }
}

/// What trimming keeps: a sub-range of `s` that neither begins nor ends with
/// white space, with nothing but white space cut away on either side.
pub proof fn lemma_trimmed(s: Seq<char>)
    ensures
        ({
            let a = skip_spaces(s, 0);
            let b = skip_spaces_back(s, a, s.len() as int);
            &&& 0 <= a <= b <= s.len()
            &&& trimmed(s) == s.subrange(a, b)
            &&& forall|k: int| 0 <= k < a ==> is_space(#[trigger] s[k])
            &&& forall|k: int| b <= k < s.len() ==> is_space(#[trigger] s[k])
            &&& a < b ==> !is_space(s[a]) && !is_space(s[b - 1])
        }),
        trimmed(s).len() > 0 ==> !is_space(trimmed(s).first()) && !is_space(trimmed(s).last()),
{
    lemma_skip_spaces_bounds(s, 0);
    let a = skip_spaces(s, 0);
    lemma_skip_spaces_back_bounds(s, a, s.len() as int);
}

/// The sub-slice of `s` between its first and last characters that are not
/// white space.
pub fn trim(s: &[char]) -> (out: &[char])
    ensures
        out@ == trimmed(s@),
{
    let n: usize = s.len();
    let mut a: usize = 0;
    while a < n && char_is_space(s[a])
        invariant
            n == s.len(),
            a <= n,
            skip_spaces(s@, a as int) == skip_spaces(s@, 0),
        decreases n - a,
    {
        a += 1;
    }
    let mut b: usize = n;
    while a < b && char_is_space(s[b - 1])
        invariant
            n == s.len(),
            a <= b <= n,
            skip_spaces_back(s@, a as int, b as int) == skip_spaces_back(s@, a as int, n as int),
        decreases b,
    {
        b -= 1;
    }
    vstd::slice::slice_subrange(s, a, b)
}

/// ASCII lower case of one character; every other character is itself.
pub open spec fn lower_char(c: char) -> char {
    if 'A' <= c && c <= 'Z' {
        ((c as u8 + 32) as u8) as char
    } else {
        c
    }
}

/// The ASCII lower case of `c`.
pub fn to_lower_char(c: char) -> (r: char)
    ensures
        r == lower_char(c),
{
    if 'A' <= c && c <= 'Z' {
        let v: u8 = c as u8 + 32;
        v as char
    } else {
        c
    }
}

/// `s` with every ASCII capital replaced by its small letter.
pub open spec fn lowered(s: Seq<char>) -> Seq<char> {
    Seq::new(s.len(), |i: int| lower_char(s[i]))
}

/// `p` is a prefix of `s`.
pub open spec fn has_prefix(s: Seq<char>, p: Seq<char>) -> bool {
    p.len() <= s.len() && s.subrange(0, p.len() as int) == p
}

/// `p` is a suffix of `s`.
pub open spec fn has_suffix(s: Seq<char>, p: Seq<char>) -> bool {
    p.len() <= s.len() && s.subrange(s.len() - p.len(), s.len() as int) == p
}

/// Whether `s`, folded to ASCII lower case, is exactly `word`.
pub fn matches_word(s: &[char], word: &str) -> (b: bool)
    ensures
        b == (lowered(s@) == word@),
{
    let w = to_chars(word);
    if w.len() != s.len() {
        return false;
    }
    let mut i: usize = 0;
    while i < s.len()
        invariant
            i <= s.len(),
            w.len() == s.len(),
            w@ == word@,
            forall|k: int| 0 <= k < i ==> lower_char(s@[k]) == w@[k],
        decreases s.len() - i,
    {
        if to_lower_char(s[i]) != w[i] {
            assert(lowered(s@)[i as int] != word@[i as int]);
            return false;
        }
        i += 1;
    }
    assert(lowered(s@) =~= word@);
    true
}

/// Whether `s`, folded to ASCII lower case, begins with `word`.
pub fn starts_with_word(s: &[char], word: &str) -> (b: bool)
    ensures
        b == has_prefix(lowered(s@), word@),
{
    let w = to_chars(word);
    if w.len() > s.len() {
        return false;
    }
    let mut i: usize = 0;
    while i < w.len()
        invariant
            i <= w.len() <= s.len(),
            w@ == word@,
            forall|k: int| 0 <= k < i ==> lower_char(s@[k]) == w@[k],
        decreases w.len() - i,
    {
        if to_lower_char(s[i]) != w[i] {
            assert(lowered(s@).subrange(0, w.len() as int)[i as int] != word@[i as int]);
            return false;
        }
        i += 1;
    }
    assert(lowered(s@).subrange(0, w.len() as int) =~= word@);
    true
}

/// Whether `s`, folded to ASCII lower case, ends with `word`.
pub fn ends_with_word(s: &[char], word: &str) -> (b: bool)
    ensures
        b == has_suffix(lowered(s@), word@),
{
    let w = to_chars(word);
    if w.len() > s.len() {
        return false;
    }
    let off: usize = s.len() - w.len();
    let mut i: usize = 0;
    while i < w.len()
        invariant
            i <= w.len() <= s.len(),
            off == s.len() - w.len(),
            w@ == word@,
            forall|k: int| 0 <= k < i ==> lower_char(s@[off + k]) == w@[k],
        decreases w.len() - i,
    {
        if to_lower_char(s[off + i]) != w[i] {
            assert(lowered(s@).subrange(off as int, s.len() as int)[i as int] != word@[i as int]);
            return false;
        }
        i += 1;
    }
    assert(lowered(s@).subrange(off as int, s.len() as int) =~= word@);
    true
}

/// First index at or after `i` at which `c` stands (the length if there is none).
pub open spec fn find_from(s: Seq<char>, c: char, i: int) -> int
    decreases s.len() - i,
{
    if i < 0 || i >= s.len() {
        s.len() as int
    } else if s[i] == c {
        i
    } else {
        find_from(s, c, i + 1)
    }
}

/// The search stops at the first `c`, or at the end where there is none.
pub proof fn lemma_find_from(s: Seq<char>, c: char, i: int)
    requires
        0 <= i <= s.len(),
    ensures
        i <= find_from(s, c, i) <= s.len(),
        forall|k: int| i <= k < find_from(s, c, i) ==> #[trigger] s[k] != c,
        find_from(s, c, i) < s.len() ==> s[find_from(s, c, i)] == c,
    decreases s.len() - i,
{
    if i < s.len() && s[i] != c {
        lemma_find_from(s, c, i + 1);
    }
}

/// `s` holds `c` exactly when the search from the start ends before the length.
pub proof fn lemma_find_contains(s: Seq<char>, c: char)
    ensures
        s.contains(c) <==> find_from(s, c, 0) < s.len(),
{
    lemma_find_from(s, c, 0);
    if s.contains(c) {
        let k = choose|k: int| 0 <= k < s.len() && s[k] == c;
        assert(s[k] == c);
    }
}

/// Index of the first `c` in `s` at or after `from`; the length if there is none.
pub fn find(s: &[char], c: char, from: usize) -> (r: usize)
    requires
        from <= s.len(),
    ensures
        r == find_from(s@, c, from as int),
        from <= r <= s.len(),
{
    let mut i: usize = from;
    while i < s.len() && s[i] != c
        invariant
            from <= i <= s.len(),
            find_from(s@, c, i as int) == find_from(s@, c, from as int),
        decreases s.len() - i,
    {
        i += 1;
    }
    i
}

/// Whether `s` holds the character `c`.
pub fn contains_char(s: &[char], c: char) -> (b: bool)
    ensures
        b == s@.contains(c),
{
    proof {
        lemma_find_contains(s@, c);
    }
    find(s, c, 0) < s.len()
}

/// The fields of `s` from `start` on: the text up to the next `sep`, then the
/// fields behind that separator. A text without separator is one field.
pub open spec fn fields_from(s: Seq<char>, sep: char, start: int) -> Seq<Seq<char>>
    decreases s.len() - start,
{
    let end = find_from(s, sep, start);
    if 0 <= start <= end < s.len() {
        seq![s.subrange(start, end)] + fields_from(s, sep, end + 1)
    } else {
        seq![s.subrange(start, s.len() as int)]
    }
}

/// `s` cut at every `sep`; the separators themselves are dropped.
pub open spec fn fields(s: Seq<char>, sep: char) -> Seq<Seq<char>> {
    fields_from(s, sep, 0)
}

/// The character sequences that a list of slices stands for.
pub open spec fn slice_views(v: Seq<&[char]>) -> Seq<Seq<char>> {
    Seq::new(v.len(), |i: int| v[i]@)
}

/// The fields put together again, with `sep` between each two of them.
pub open spec fn rejoined(parts: Seq<Seq<char>>, sep: char) -> Seq<char>
    decreases parts.len(),
{
    if parts.len() == 0 {
        Seq::empty()
    } else if parts.len() == 1 {
        parts[0]
    } else {
        parts[0].push(sep) + rejoined(parts.drop_first(), sep)
    }
}

/// What cutting means: there is at least one field, no field holds the
/// separator, and the fields with the separator between them are the text
/// that was cut.
pub proof fn lemma_fields(s: Seq<char>, sep: char, start: int)
    requires
        0 <= start <= s.len(),
    ensures
        fields_from(s, sep, start).len() >= 1,
        fields_from(s, sep, start)[0] == s.subrange(start, find_from(s, sep, start)),
        forall|k: int|
            0 <= k < fields_from(s, sep, start).len() ==> !(#[trigger] fields_from(
                s,
                sep,
                start,
            )[k]).contains(sep),
        rejoined(fields_from(s, sep, start), sep) == s.subrange(start, s.len() as int),
    decreases s.len() - start,
{
    lemma_find_from(s, sep, start);
    let end = find_from(s, sep, start);
    let head = s.subrange(start, end);
    assert(!head.contains(sep)) by {
        if head.contains(sep) {
            let k = choose|k: int| 0 <= k < head.len() && head[k] == sep;
            assert(s[start + k] == sep);
        }
    }
    if end < s.len() {
        lemma_fields(s, sep, end + 1);
        let rest = fields_from(s, sep, end + 1);
        let all = fields_from(s, sep, start);
        assert(all == seq![head] + rest);
        assert forall|k: int| 0 <= k < all.len() implies !(#[trigger] all[k]).contains(sep) by {
            if k > 0 {
                assert(all[k] == rest[k - 1]);
            }
        }
        assert(all.drop_first() =~= rest);
        assert(head.push(sep) + s.subrange(end + 1, s.len() as int) =~= s.subrange(
            start,
            s.len() as int,
        ));
    }
}

/// Cuts `s` at every `sep`.
pub fn split<'a>(s: &'a [char], sep: char) -> (out: Vec<&'a [char]>)
    ensures
        slice_views(out@) == fields(s@, sep),
        out.len() >= 1,
{
    let mut out: Vec<&'a [char]> = Vec::new();
    let mut start: usize = 0;
    loop
        invariant
            start <= s.len(),
            fields(s@, sep) == slice_views(out@) + fields_from(s@, sep, start as int),
        decreases s.len() - start,
    {
        let end: usize = find(s, sep, start);
        let ghost before = slice_views(out@);
        if end < s.len() {
            out.push(vstd::slice::slice_subrange(s, start, end));
            proof {
                let rest = fields_from(s@, sep, end as int + 1);
                assert(fields_from(s@, sep, start as int) == seq![s@.subrange(start as int, end as int)]
                    + rest);
                assert(slice_views(out@) =~= before + seq![s@.subrange(start as int, end as int)]);
                assert(before + (seq![s@.subrange(start as int, end as int)] + rest) =~= (before
                    + seq![s@.subrange(start as int, end as int)]) + rest);
            }
            start = end + 1;
        } else {
            out.push(vstd::slice::slice_subrange(s, start, s.len()));
            proof {
                assert(fields_from(s@, sep, start as int) == seq![
                    s@.subrange(start as int, s@.len() as int),
                ]);
                assert(slice_views(out@) =~= before + seq![
                    s@.subrange(start as int, s@.len() as int),
                ]);
            }
            return out;
        }
    }
}

/// The text before and behind the first `c` of `s`, if `s` holds one.
pub open spec fn cut_at_first(s: Seq<char>, c: char) -> Option<(Seq<char>, Seq<char>)> {
    let i = find_from(s, c, 0);
    if i < s.len() {
        Some((s.subrange(0, i), s.subrange(i + 1, s.len() as int)))
    } else {
        None
    }
}

/// Cuts `s` at its first `c`.
pub fn split_once<'a>(s: &'a [char], c: char) -> (r: Option<(&'a [char], &'a [char])>)
    ensures
        match r {
            Some((a, b)) => cut_at_first(s@, c) == Some((a@, b@)),
            None => cut_at_first(s@, c) is None,
        },
{
    let i: usize = find(s, c, 0);
    if i < s.len() {
        Some((vstd::slice::slice_subrange(s, 0, i), vstd::slice::slice_subrange(s, i + 1, s.len())))
    } else {
        None
    }
}

/// A decimal digit.
pub open spec fn is_digit(c: char) -> bool {
    '0' <= c && c <= '9'
}

/// Every character is a decimal digit.
pub open spec fn all_digits(s: Seq<char>) -> bool {
    forall|i: int| 0 <= i < s.len() ==> is_digit(#[trigger] s[i])
}

/// Whether every character of `s` is a decimal digit.
pub fn is_all_digits(s: &[char]) -> (b: bool)
    ensures
        b == all_digits(s@),
{
    let mut i: usize = 0;
    while i < s.len()
        invariant
            i <= s.len(),
            forall|k: int| 0 <= k < i ==> is_digit(#[trigger] s@[k]),
        decreases s.len() - i,
    {
        if !('0' <= s[i] && s[i] <= '9') {
            assert(!is_digit(s@[i as int]));
            return false;
        }
        i += 1;
    }
    true
}

/// The number that the decimal digit `c` stands for.
pub open spec fn digit_of(c: char) -> nat {
    (c as u32 - '0' as u32) as nat
}

/// The number written by the decimal digits `s`, most significant first.
pub open spec fn decimal(s: Seq<char>) -> nat
    decreases s.len(),
{
    if s.len() == 0 {
        0
    } else {
        decimal(s.drop_last()) * 10 + digit_of(s.last())
    }
}

/// The integer that `s` writes: an optional sign, then at least one decimal
/// digit and nothing else.
pub open spec fn int_of(s: Seq<char>) -> Option<int> {
    if s.len() > 0 && (s[0] == '+' || s[0] == '-') {
        let d = s.subrange(1, s.len() as int);
        if d.len() > 0 && all_digits(d) {
            Some(
                if s[0] == '-' {
                    -(decimal(d) as int)
                } else {
                    decimal(d) as int
                },
            )
        } else {
            None
        }
    } else if s.len() > 0 && all_digits(s) {
        Some(decimal(s) as int)
    } else {
        None
    }
}

/// The `i32` that `s` writes, if it writes an integer in range.
pub open spec fn i32_of(s: Seq<char>) -> Option<i32> {
    match int_of(s) {
        Some(v) => if i32::MIN <= v <= i32::MAX {
            Some(v as i32)
        } else {
            None
        },
        None => None,
    }
}

/// The `usize` that `s` writes: a `+` may lead, a `-` may not.
pub open spec fn usize_of(s: Seq<char>) -> Option<usize> {
    if s.len() > 0 && s[0] == '-' {
        None
    } else {
        match int_of(s) {
            Some(v) => if v <= usize::MAX {
                Some(v as usize)
            } else {
                None
            },
            None => None,
        }
    }
}

/// Reads the digits of `s` from `from` to its end as a number of at most `limit`.
fn parse_digits(s: &[char], from: usize, limit: u128) -> (r: Option<u128>)
    requires
        from <= s.len(),
        limit <= 0xFFFF_FFFF_FFFF_FFFF,
    ensures
        ({
            let d = s@.subrange(from as int, s@.len() as int);
            match r {
                Some(v) => d.len() > 0 && all_digits(d) && decimal(d) == v && v <= limit,
                None => !(d.len() > 0 && all_digits(d) && decimal(d) <= limit),
            }
        }),
{
    let ghost d = s@.subrange(from as int, s@.len() as int);
    let mut acc: u128 = 0;
    let mut over: bool = false;
    let mut i: usize = from;
    while i < s.len()
        invariant
            from <= i <= s.len(),
            limit <= 0xFFFF_FFFF_FFFF_FFFF,
            d == s@.subrange(from as int, s@.len() as int),
            all_digits(d.subrange(0, i - from)),
            over ==> decimal(d.subrange(0, i - from)) > limit,
            !over ==> acc == decimal(d.subrange(0, i - from)) && acc <= limit,
        decreases s.len() - i,
    {
        let c: char = s[i];
        if !('0' <= c && c <= '9') {
            assert(!is_digit(d[i - from]));
            return None;
        }
        let v: u128 = (c as u32 - 48) as u128;
        proof {
            let next = d.subrange(0, i - from + 1);
            assert(next.drop_last() =~= d.subrange(0, i - from));
            assert(next.last() == c);
            assert(decimal(next) == decimal(d.subrange(0, i - from)) * 10 + digit_of(c));
            assert forall|k: int| 0 <= k < next.len() implies is_digit(#[trigger] next[k]) by {
                if k < i - from {
                    assert(d.subrange(0, i - from)[k] == next[k]);
                }
            }
        }
        if !over {
            acc = acc * 10 + v;
            if acc > limit {
                over = true;
            }
        }
        i += 1;
    }
    assert(d.subrange(0, i - from) =~= d);
    if i == from || over {
        None
    } else {
        Some(acc)
    }
}

/// Reads `s` as an `i32`.
pub fn parse_i32(s: &[char]) -> (r: Option<i32>)
    ensures
        r == i32_of(s@),
{
    if s.len() == 0 {
        return None;
    }
    let negative: bool = s[0] == '-';
    let signed: bool = negative || s[0] == '+';
    let from: usize = if signed {
        1
    } else {
        0
    };
    let limit: u128 = if negative {
        2147483648
    } else {
        2147483647
    };
    assert(s@.subrange(0, s@.len() as int) =~= s@);
    match parse_digits(s, from, limit) {
        None => None,
        Some(v) => {
            if negative {
                let w: i64 = 0 - (v as i64);
                Some(w as i32)
            } else {
                Some(v as i32)
            }
        },
    }
}

/// Reads `s` as a `usize`.
pub fn parse_usize(s: &[char]) -> (r: Option<usize>)
    ensures
        r == usize_of(s@),
{
    if s.len() == 0 || s[0] == '-' {
        return None;
    }
    let from: usize = if s[0] == '+' {
        1
    } else {
        0
    };
    assert(s@.subrange(0, s@.len() as int) =~= s@);
    match parse_digits(s, from, usize::MAX as u128) {
        None => None,
        Some(v) => Some(v as usize),
    }
}

/// Appends the characters of `b` to `a`.
pub fn push_all(a: &mut Vec<char>, b: &[char])
    ensures
        final(a)@ == old(a)@ + b@,
{
    let mut i: usize = 0;
    while i < b.len()
        invariant
            i <= b.len(),
            a@ == old(a)@ + b@.subrange(0, i as int),
        decreases b.len() - i,
    {
        a.push(b[i]);
        i += 1;
        assert(a@ =~= old(a)@ + b@.subrange(0, i as int));
    }
    assert(b@.subrange(0, i as int) =~= b@);
}

/// The character of a decimal digit.
pub open spec fn digit_char(d: nat) -> char {
    ((48 + d) as u8) as char
}

/// `n` written in decimal digits, without leading zeros.
pub open spec fn decimal_text(n: nat) -> Seq<char>
    decreases n,
{
    if n < 10 {
        seq![digit_char(n)]
    } else {
        decimal_text(n / 10).push(digit_char(n % 10))
    }
}

/// Decimal text is made of digits only and reads back as the number it was
/// written from; so two numbers with the same text are the same.
pub proof fn lemma_decimal_text(n: nat)
    ensures
        decimal_text(n).len() >= 1,
        all_digits(decimal_text(n)),
        decimal(decimal_text(n)) == n,
    decreases n,
{
    if n < 10 {
        let s = decimal_text(n);
        assert(s.drop_last() =~= Seq::<char>::empty());
        assert(decimal(s.drop_last()) == 0);
        assert(digit_of(digit_char(n)) == n);
    } else {
        lemma_decimal_text(n / 10);
        let s = decimal_text(n);
        assert(s.drop_last() =~= decimal_text(n / 10));
        assert(digit_of(digit_char(n % 10)) == n % 10);
    }
}

/// Writes `n` in decimal digits.
pub fn decimal_chars(n: usize) -> (out: Vec<char>)
    ensures
        out@ == decimal_text(n as nat),
    decreases n,
{
    if n < 10 {
        let d: u8 = 48 + n as u8;
        let mut out: Vec<char> = Vec::new();
        out.push(d as char);
        assert(out@ =~= seq![digit_char(n as nat)]);
        out
    } else {
        let mut out = decimal_chars(n / 10);
        let d: u8 = 48 + (n % 10) as u8;
        out.push(d as char);
        out
    }
}

/// Whether two slices hold the same characters.
pub fn same_chars(a: &[char], b: &[char]) -> (r: bool)
    ensures
        r == (a@ == b@),
{
    if a.len() != b.len() {
        return false;
    }
    let mut i: usize = 0;
    while i < a.len()
        invariant
            i <= a.len(),
            a.len() == b.len(),
            forall|k: int| 0 <= k < i ==> a@[k] == b@[k],
        decreases a.len() - i,
    {
        if a[i] != b[i] {
            return false;
        }
        i += 1;
    }
    assert(a@ =~= b@);
    true
}

/// Whether `s` begins with `p`.
pub fn starts_with(s: &[char], p: &[char]) -> (r: bool)
    ensures
        r == has_prefix(s@, p@),
{
    if p.len() > s.len() {
        return false;
    }
    same_chars(vstd::slice::slice_subrange(s, 0, p.len()), p)
}

} // verus!
