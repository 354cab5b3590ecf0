//! Character-sequence utilities the line-oriented shader rewriter is built
//! on: substring search, leftmost non-overlapping replacement, and the same
//! line splitting `str::lines` performs.

use vstd::prelude::*;

verus! {

/// `pat` occurs in `s` starting at index `i`.
pub open spec fn starts_with_at(s: Seq<char>, pat: Seq<char>, i: int) -> bool {
    0 <= i && i + pat.len() <= s.len() && s.subrange(i, i + pat.len()) == pat
}

/// `pat` occurs somewhere in `s`.
pub open spec fn contains_seq(s: Seq<char>, pat: Seq<char>) -> bool {
    exists|i: int| starts_with_at(s, pat, i)
}

/// Leftmost non-overlapping replacement of `from` by `to`, as
/// `str::replace` performs it.  An empty pattern leaves `s` unchanged
/// (executable callers always pass a non-empty pattern).
pub open spec fn replace_spec(s: Seq<char>, from: Seq<char>, to: Seq<char>) -> Seq<char>
    decreases s.len(),
{
    if from.len() == 0 || s.len() < from.len() {
        s
    } else if s.subrange(0, from.len() as int) == from {
        to + replace_spec(s.subrange(from.len() as int, s.len() as int), from, to)
    } else {
        seq![s[0]] + replace_spec(s.subrange(1, s.len() as int), from, to)
    }
}

/// Index of the first `'\n'` at or after `i`, or `s.len()` if there is none.
pub open spec fn find_newline(s: Seq<char>, i: int) -> int
    decreases s.len() - i,
{
    if i < 0 || i >= s.len() {
        s.len() as int
    } else if s[i] == '\n' {
        i
    } else {
        find_newline(s, i + 1)
    }
}

pub proof fn lemma_find_newline(s: Seq<char>, i: int)
    requires
        0 <= i <= s.len(),
    ensures
        i <= find_newline(s, i) <= s.len(),
        find_newline(s, i) < s.len() ==> s[find_newline(s, i)] == '\n',
        forall|k: int| i <= k < find_newline(s, i) ==> s[k] != '\n',
    decreases s.len() - i,
{
    if i < s.len() && s[i] != '\n' {
        lemma_find_newline(s, i + 1);
    }
}

/// A line with a trailing carriage return removed, as `str::lines` strips it
/// before a line feed.
pub open spec fn strip_cr(l: Seq<char>) -> Seq<char> {
    if l.len() > 0 && l[l.len() - 1] == '\r' {
        l.drop_last()
    } else {
        l
    }
}

/// The lines of `s` from index `i` on, under `str::lines` semantics: split at
/// `'\n'`, strip one `'\r'` before each split point, keep a last line that
/// has no terminator as it stands, and drop a trailing empty segment.
pub open spec fn spec_lines_from(s: Seq<char>, i: int) -> Seq<Seq<char>>
    decreases s.len() - i,
    via spec_lines_from_dec
{
    if i < 0 || i >= s.len() {
        Seq::empty()
    } else {
        let j = find_newline(s, i);
        if j == s.len() {
            seq![s.subrange(i, s.len() as int)]
        } else {
            seq![strip_cr(s.subrange(i, j))] + spec_lines_from(s, j + 1)
        }
    }
}

#[via_fn]
proof fn spec_lines_from_dec(s: Seq<char>, i: int) {
    if 0 <= i < s.len() {
        lemma_find_newline(s, i);
    }
}

/// The lines of `s`, under `str::lines` semantics.
pub open spec fn spec_lines(s: Seq<char>) -> Seq<Seq<char>> {
    spec_lines_from(s, 0)
}

/// Index of the first occurrence of `c` at or after `i`, or `s.len()`.
pub open spec fn find_char(s: Seq<char>, i: int, c: char) -> int
    decreases s.len() - i,
{
    if i < 0 || i >= s.len() {
        s.len() as int
    } else if s[i] == c {
        i
    } else {
        find_char(s, i + 1, c)
    }
}

pub proof fn lemma_find_char(s: Seq<char>, i: int, c: char)
    requires
        0 <= i <= s.len(),
    ensures
        i <= find_char(s, i, c) <= s.len(),
        find_char(s, i, c) < s.len() ==> s[find_char(s, i, c)] == c,
        forall|k: int| i <= k < find_char(s, i, c) ==> s[k] != c,
    decreases s.len() - i,
{
    if i < s.len() && s[i] != c {
        lemma_find_char(s, i + 1, c);
    }
}

/// The segments of `s` from `i` on when split at `c`, under `str::split`
/// semantics: `n` separators give `n + 1` segments, empty ones included.
pub open spec fn split_char_from(s: Seq<char>, i: int, c: char) -> Seq<Seq<char>>
    decreases s.len() - i,
    via split_char_from_dec
{
    if i < 0 || i > s.len() {
        Seq::empty()
    } else {
        let j = find_char(s, i, c);
        if j == s.len() {
            seq![s.subrange(i, s.len() as int)]
        } else {
            seq![s.subrange(i, j)] + split_char_from(s, j + 1, c)
        }
    }
}

#[via_fn]
proof fn split_char_from_dec(s: Seq<char>, i: int, c: char) {
    if 0 <= i <= s.len() {
        lemma_find_char(s, i, c);
        if find_char(s, i, c) < s.len() {
            assert(s[find_char(s, i, c)] == c);
        }
    }
}

/// The segments of `s` split at `c`, under `str::split` semantics.
pub open spec fn split_char(s: Seq<char>, c: char) -> Seq<Seq<char>> {
    split_char_from(s, 0, c)
}

/// Characters `str::trim` removes: the Unicode `White_Space` set.
pub open spec fn is_wspace(c: char) -> bool {
    c == ' ' || c == '\u{9}' || c == '\u{a}' || c == '\u{b}' || c == '\u{c}' || c == '\u{d}'
        || c == '\u{85}' || c == '\u{a0}' || c == '\u{1680}' || ('\u{2000}' <= c && c
        <= '\u{200a}') || c == '\u{2028}' || c == '\u{2029}' || c == '\u{202f}' || c == '\u{205f}'
        || c == '\u{3000}'
}

/// Whether `c` belongs to the Unicode `White_Space` set, as
/// `char::is_whitespace` reports it.
pub fn is_wspace_exec(c: char) -> (b: bool)
    ensures
        b == is_wspace(c),
{
    c == ' ' || c == '\u{9}' || c == '\u{a}' || c == '\u{b}' || c == '\u{c}' || c == '\u{d}'
        || c == '\u{85}' || c == '\u{a0}' || c == '\u{1680}' || ('\u{2000}' <= c && c
        <= '\u{200a}') || c == '\u{2028}' || c == '\u{2029}' || c == '\u{202f}' || c == '\u{205f}'
        || c == '\u{3000}'
}

/// First index at or after `i` holding a non-whitespace character, or
/// `s.len()`.
pub open spec fn skip_ws(s: Seq<char>, i: int) -> int
    decreases s.len() - i,
{
    if i < 0 || i >= s.len() {
        s.len() as int
    } else if is_wspace(s[i]) {
        skip_ws(s, i + 1)
    } else {
        i
    }
}

pub proof fn lemma_skip_ws(s: Seq<char>, i: int)
    requires
        0 <= i <= s.len(),
    ensures
        i <= skip_ws(s, i) <= s.len(),
        skip_ws(s, i) < s.len() ==> !is_wspace(s[skip_ws(s, i)]),
        forall|k: int| i <= k < skip_ws(s, i) ==> is_wspace(s[k]),
    decreases s.len() - i,
{
    if i < s.len() && is_wspace(s[i]) {
        lemma_skip_ws(s, i + 1);
    }
}

/// One past the last non-whitespace character of `s.subrange(0, j)`, or 0.
pub open spec fn rskip_ws(s: Seq<char>, j: int) -> int
    decreases j,
{
    if j <= 0 || j > s.len() {
        0
    } else if is_wspace(s[j - 1]) {
        rskip_ws(s, j - 1)
    } else {
        j
    }
}

/// `s` with leading and trailing whitespace removed, as `str::trim`
/// performs it.
pub open spec fn trim_spec(s: Seq<char>) -> Seq<char> {
    let a = skip_ws(s, 0);
    let b = rskip_ws(s, s.len() as int);
    if a <= b {
        s.subrange(a, b)
    } else {
        Seq::empty()
    }
}

/// The number of occurrences of `c` in `s`.
pub open spec fn count_char(s: Seq<char>, c: char) -> nat
    decreases s.len(),
{
    if s.len() == 0 {
        0
    } else {
        count_char(s.drop_last(), c) + (if s.last() == c {
            1nat
        } else {
            0nat
        })
    }
}

/// The decimal digits of `n`, most significant first.
pub open spec fn dec_nat(n: nat) -> Seq<char>
    decreases n,
{
    if n < 10 {
        seq![digit_char(n)]
    } else {
        dec_nat(n / 10) + seq![digit_char(n % 10)]
    }
}

/// The decimal rendering of `n`, with a leading minus sign when negative.
pub open spec fn dec_int(n: int) -> Seq<char> {
    if n < 0 {
        seq!['-'] + dec_nat((-n) as nat)
    } else {
        dec_nat(n as nat)
    }
}

/// The digit character for a value below ten.
pub open spec fn digit_char(d: nat) -> char {
    if d == 0 {
        '0'
    } else if d == 1 {
        '1'
    } else if d == 2 {
        '2'
    } else if d == 3 {
        '3'
    } else if d == 4 {
        '4'
    } else if d == 5 {
        '5'
    } else if d == 6 {
        '6'
    } else if d == 7 {
        '7'
    } else if d == 8 {
        '8'
    } else {
        '9'
    }
}

/// A text without line breaks, as every line of `spec_lines` is.
pub open spec fn no_nl(l: Seq<char>) -> bool {
    forall|k: int| 0 <= k < l.len() ==> l[k] != '\n'
}

/// Every line `spec_lines` yields is free of line breaks.
pub proof fn lemma_lines_no_nl(s: Seq<char>, i: int)
    requires
        0 <= i <= s.len(),
    ensures
        forall|m: int|
            0 <= m < spec_lines_from(s, i).len() ==> no_nl(#[trigger] spec_lines_from(s, i)[m]),
    decreases s.len() - i,
{
    if i < s.len() {
        let j = find_newline(s, i);
        lemma_find_newline(s, i);
        if j == s.len() {
            assert(no_nl(s.subrange(i, s.len() as int)));
        } else {
            lemma_lines_no_nl(s, j + 1);
            let ls = spec_lines_from(s, i);
            let line = strip_cr(s.subrange(i, j));
            assert(no_nl(s.subrange(i, j)));
            assert(no_nl(line));
            assert forall|m: int| 0 <= m < ls.len() implies no_nl(#[trigger] ls[m]) by {
                if m > 0 {
                    assert(ls[m] == spec_lines_from(s, j + 1)[m - 1]);
                }
            }
        }
    }
}

/// The first line break is found at the same place in any extension of
/// the text, as long as it lies within the first part.
proof fn lemma_find_newline_concat(a: Seq<char>, b: Seq<char>, i: int)
    requires
        0 <= i <= a.len(),
        find_newline(a, i) < a.len(),
    ensures
        find_newline(a + b, i) == find_newline(a, i),
    decreases a.len() - i,
{
    lemma_find_newline(a, i);
    if i < a.len() {
        assert((a + b)[i] == a[i]);
        if a[i] != '\n' {
            lemma_find_newline_concat(a, b, i + 1);
        }
    }
}

/// Splitting from position `i` is splitting the text that starts there.
pub proof fn lemma_lines_from_skip(s: Seq<char>, i: int)
    requires
        0 <= i <= s.len(),
    ensures
        spec_lines_from(s, i) == spec_lines(s.skip(i)),
    decreases s.len() - i,
{
    let t = s.skip(i);
    if i == s.len() {
        assert(t =~= Seq::<char>::empty());
    } else {
        let j = find_newline(s, i);
        lemma_find_newline(s, i);
        lemma_find_newline(t, 0);
        assert(find_newline(t, 0) == j - i) by {
            lemma_find_newline_shift(s, i, i);
        }
        if j == s.len() {
            assert(t.subrange(0, t.len() as int) =~= s.subrange(i, s.len() as int));
            assert(spec_lines(t) == seq![t.subrange(0, t.len() as int)]);
        } else {
            lemma_lines_from_skip(s, j + 1);
            assert(t.subrange(0, j - i) =~= s.subrange(i, j));
            assert(t.skip(j - i + 1) =~= s.skip(j + 1));
            lemma_lines_from_skip(t, j - i + 1);
        }
    }
}

/// Scanning a suffix finds the line break the full scan finds, shifted.
proof fn lemma_find_newline_shift(s: Seq<char>, base: int, i: int)
    requires
        0 <= base <= i <= s.len(),
    ensures
        find_newline(s.skip(base), i - base) == find_newline(s, i) - base,
    decreases s.len() - i,
{
    let t = s.skip(base);
    if i < s.len() {
        assert(t[i - base] == s[i]);
        if s[i] != '\n' {
            lemma_find_newline_shift(s, base, i + 1);
        }
    }
}

/// Line splitting distributes over concatenation at a line boundary: a
/// text that ends in a line break contributes exactly its own lines.
pub proof fn lemma_lines_concat(a: Seq<char>, b: Seq<char>)
    requires
        a.len() > 0,
        a.last() == '\n',
    ensures
        spec_lines(a + b) == spec_lines(a) + spec_lines(b),
    decreases a.len(),
{
    let j = find_newline(a, 0);
    lemma_find_newline(a, 0);
    assert(j < a.len()) by {
        if j == a.len() {
            assert(a[a.len() - 1] != '\n');
        }
    }
    lemma_find_newline_concat(a, b, 0);
    assert((a + b).subrange(0, j) =~= a.subrange(0, j));
    lemma_lines_from_skip(a + b, j + 1);
    lemma_lines_from_skip(a, j + 1);
    let a2 = a.skip(j + 1);
    assert((a + b).skip(j + 1) =~= a2 + b);
    if a2.len() == 0 {
        assert(a2 + b =~= b);
        assert(spec_lines(a) =~= seq![strip_cr(a.subrange(0, j))]);
        assert(spec_lines(a + b) =~= seq![strip_cr(a.subrange(0, j))] + spec_lines(b));
    } else {
        assert(a2.last() == a.last());
        lemma_lines_concat(a2, b);
        assert(spec_lines(a + b) =~= seq![strip_cr(a.subrange(0, j))] + (spec_lines(a2)
            + spec_lines(b)));
        assert(spec_lines(a) =~= seq![strip_cr(a.subrange(0, j))] + spec_lines(a2));
        assert(seq![strip_cr(a.subrange(0, j))] + (spec_lines(a2) + spec_lines(b)) =~= (seq![
            strip_cr(a.subrange(0, j)),
        ] + spec_lines(a2)) + spec_lines(b));
    }
}

/// A single break-free line with its terminator splits back to itself.
pub proof fn lemma_lines_single(l: Seq<char>)
    requires
        no_nl(l),
    ensures
        spec_lines(l + seq!['\n']) == seq![strip_cr(l)],
    decreases l.len(),
{
    let s = l + seq!['\n'];
    let j = find_newline(s, 0);
    lemma_find_newline(s, 0);
    assert(s[l.len() as int] == '\n');
    assert(j <= l.len());
    assert(j == l.len()) by {
        if j < l.len() {
            assert(s[j] == l[j]);
        }
    }
    assert(s.subrange(0, j) =~= l);
    assert(spec_lines_from(s, j + 1) =~= Seq::<Seq<char>>::empty());
    assert(spec_lines(s) =~= seq![strip_cr(l)]);
}

/// Replacement never introduces a line break that neither text had.
pub proof fn lemma_replace_no_nl(s: Seq<char>, from: Seq<char>, to: Seq<char>)
    requires
        no_nl(s),
        no_nl(to),
    ensures
        no_nl(replace_spec(s, from, to)),
    decreases s.len(),
{
    if from.len() == 0 || s.len() < from.len() {
    } else if s.subrange(0, from.len() as int) == from {
        assert(no_nl(s.subrange(from.len() as int, s.len() as int)));
        lemma_replace_no_nl(s.subrange(from.len() as int, s.len() as int), from, to);
        let r = to + replace_spec(s.subrange(from.len() as int, s.len() as int), from, to);
        assert forall|k: int| 0 <= k < r.len() implies r[k] != '\n' by {}
    } else {
        assert(no_nl(s.subrange(1, s.len() as int)));
        lemma_replace_no_nl(s.subrange(1, s.len() as int), from, to);
        let r = seq![s[0]] + replace_spec(s.subrange(1, s.len() as int), from, to);
        assert forall|k: int| 0 <= k < r.len() implies r[k] != '\n' by {}
    }
}

/// Relies on `String::push`: appends exactly the one character.
#[verifier::external_body]
pub fn push_char(s: &mut String, c: char)
    ensures
        final(s)@ == old(s)@.push(c),
{
    s.push(c)
}

/// The characters of a string slice, in order.
pub fn chars_of(s: &str) -> (r: Vec<char>)
    ensures
        r@ == s@,
{
    let n = s.unicode_len();
    let mut r: Vec<char> = Vec::new();
    let mut i: usize = 0;
    while i < n
        invariant
            n == s@.len(),
            i <= n,
            r@ == s@.subrange(0, i as int),
        decreases n - i,
    {
        let c = s.get_char(i);
        r.push(c);
        i = i + 1;
        assert(r@ =~= s@.subrange(0, i as int));
    }
    assert(r@ =~= s@);
    r
}

/// A `String` holding exactly the given characters.
pub fn string_of(v: &Vec<char>) -> (r: String)
    ensures
        r@ == v@,
{
    let mut r = String::new();
    let mut i: usize = 0;
    while i < v.len()
        invariant
            i <= v.len(),
            r@ == v@.subrange(0, i as int),
        decreases v.len() - i,
    {
        push_char(&mut r, v[i]);
        i = i + 1;
        assert(r@ =~= v@.subrange(0, i as int));
    }
    assert(r@ =~= v@);
    r
}

/// Appends the characters of `src` to `out`.
pub fn extend_chars(out: &mut Vec<char>, src: &Vec<char>)
    ensures
        final(out)@ == old(out)@ + src@,
{
    let mut i: usize = 0;
    while i < src.len()
        invariant
            i <= src.len(),
            out@ == old(out)@ + src@.subrange(0, i as int),
        decreases src.len() - i,
    {
        out.push(src[i]);
        i = i + 1;
        assert(out@ =~= old(out)@ + src@.subrange(0, i as int));
    }
    assert(out@ =~= old(out)@ + src@);
}

/// Appends the characters of the string slice `src` to `out`.
pub fn extend_str(out: &mut Vec<char>, src: &str)
    ensures
        final(out)@ == old(out)@ + src@,
{
    let v = chars_of(src);
    extend_chars(out, &v);
}

/// Whether `pat` occurs in `s` at index `i`.
pub fn matches_at(s: &Vec<char>, pat: &Vec<char>, i: usize) -> (b: bool)
    requires
        i <= s.len(),
    ensures
        b == starts_with_at(s@, pat@, i as int),
{
    if pat.len() > s.len() - i {
        assert(!starts_with_at(s@, pat@, i as int));
        return false;
    }
    let mut j: usize = 0;
    while j < pat.len()
        invariant
            i + pat.len() <= s.len(),
            j <= pat.len(),
            forall|k: int| 0 <= k < j ==> s@[i + k] == pat@[k],
        decreases pat.len() - j,
    {
        if s[i + j] != pat[j] {
            assert(s@.subrange(i as int, i + pat@.len()) != pat@) by {
                assert(s@.subrange(i as int, i + pat@.len())[j as int] != pat@[j as int]);
            }
            return false;
        }
        j = j + 1;
    }
    assert(s@.subrange(i as int, i + pat@.len()) =~= pat@);
    true
}

/// Whether `pat` occurs anywhere in `s`.
pub fn contains(s: &Vec<char>, pat: &Vec<char>) -> (b: bool)
    requires
        pat.len() >= 1,
    ensures
        b == contains_seq(s@, pat@),
{
    if pat.len() > s.len() {
        assert(forall|i: int| !starts_with_at(s@, pat@, i));
        return false;
    }
    let mut i: usize = 0;
    while i <= s.len() - pat.len()
        invariant
            pat.len() >= 1,
            pat.len() <= s.len(),
            i <= s.len() - pat.len() + 1,
            forall|k: int| 0 <= k < i ==> !starts_with_at(s@, pat@, k),
        decreases s.len() - i,
    {
        if matches_at(s, pat, i) {
            assert(starts_with_at(s@, pat@, i as int));
            return true;
        }
        i = i + 1;
    }
    assert(forall|k: int| !starts_with_at(s@, pat@, k));
    false
}

/// Leftmost non-overlapping replacement of `from` by `to`, as
/// `str::replace` performs it.
pub fn replace(s: &Vec<char>, from: &Vec<char>, to: &Vec<char>) -> (r: Vec<char>)
    requires
        from.len() >= 1,
    ensures
        r@ == replace_spec(s@, from@, to@),
{
    let mut r: Vec<char> = Vec::new();
    let mut i: usize = 0;
    proof {
        assert(s@.subrange(0, s@.len() as int) =~= s@);
        assert(r@ + replace_spec(s@, from@, to@) =~= replace_spec(s@, from@, to@));
    }
    while i < s.len()
        invariant
            from.len() >= 1,
            i <= s.len(),
            replace_spec(s@, from@, to@) == r@ + replace_spec(
                s@.subrange(i as int, s@.len() as int),
                from@,
                to@,
            ),
        decreases s.len() - i,
    {
        let ghost tail = s@.subrange(i as int, s@.len() as int);
        let ghost r0 = r@;
        if matches_at(s, from, i) {
            proof {
                assert(tail.subrange(0, from@.len() as int) =~= s@.subrange(
                    i as int,
                    i + from@.len(),
                ));
                assert(tail.subrange(from@.len() as int, tail.len() as int) =~= s@.subrange(
                    i + from@.len(),
                    s@.len() as int,
                ));
                assert(replace_spec(tail, from@, to@) == to@ + replace_spec(
                    s@.subrange(i + from@.len(), s@.len() as int),
                    from@,
                    to@,
                ));
            }
            extend_chars(&mut r, to);
            i = i + from.len();
            proof {
                assert(r0 + (to@ + replace_spec(s@.subrange(i as int, s@.len() as int), from@, to@))
                    =~= r@ + replace_spec(s@.subrange(i as int, s@.len() as int), from@, to@));
            }
        } else {
            proof {
                assert(tail.len() < from@.len() || tail.subrange(0, from@.len() as int) != from@)
                    by {
                    if tail.len() >= from@.len() {
                        assert(tail.subrange(0, from@.len() as int) =~= s@.subrange(
                            i as int,
                            i + from@.len(),
                        ));
                    }
                }
                assert(tail.subrange(1, tail.len() as int) =~= s@.subrange(
                    i + 1,
                    s@.len() as int,
                ));
                assert(replace_spec(tail, from@, to@) == seq![tail[0]] + replace_spec(
                    s@.subrange(i + 1, s@.len() as int),
                    from@,
                    to@,
                ));
            }
            r.push(s[i]);
            i = i + 1;
            proof {
                assert(r0 + (seq![s@[i - 1]] + replace_spec(
                    s@.subrange(i as int, s@.len() as int),
                    from@,
                    to@,
                )) =~= r@ + replace_spec(s@.subrange(i as int, s@.len() as int), from@, to@));
            }
        }
    }
    proof {
        assert(s@.subrange(i as int, s@.len() as int) =~= Seq::<char>::empty());
        assert(replace_spec(Seq::<char>::empty(), from@, to@) == Seq::<char>::empty());
        assert(r@ + Seq::<char>::empty() =~= r@);
    }
    r
}

/// Index of the first `'\n'` at or after `i`, or the length if there is none.
pub fn find_nl(s: &Vec<char>, i: usize) -> (j: usize)
    requires
        i <= s.len(),
    ensures
        j == find_newline(s@, i as int),
        i <= j <= s.len(),
    decreases s.len() - i,
{
    let mut j: usize = i;
    while j < s.len()
        invariant
            i <= j <= s.len(),
            find_newline(s@, i as int) == find_newline(s@, j as int),
        decreases s.len() - j,
    {
        if s[j] == '\n' {
            proof {
                lemma_find_newline(s@, i as int);
            }
            return j;
        }
        j = j + 1;
    }
    proof {
        lemma_find_newline(s@, i as int);
    }
    j
}

/// The lines of `s`, under `str::lines` semantics.
pub fn split_lines(s: &Vec<char>) -> (r: Vec<Vec<char>>)
    ensures
        r.deep_view() == spec_lines(s@),
{
    let mut r: Vec<Vec<char>> = Vec::new();
    let mut i: usize = 0;
    while i < s.len()
        invariant
            i <= s.len(),
            spec_lines(s@) == r.deep_view() + spec_lines_from(s@, i as int),
        decreases s.len() - i,
    {
        let j = find_nl(s, i);
        // the raw line s[i .. j]
        let mut line: Vec<char> = Vec::new();
        let mut k: usize = i;
        while k < j
            invariant
                i <= k <= j <= s.len(),
                line@ == s@.subrange(i as int, k as int),
            decreases j - k,
        {
            line.push(s[k]);
            k = k + 1;
            assert(line@ =~= s@.subrange(i as int, k as int));
        }
        let ghost old_dv = r.deep_view();
        if j == s.len() {
            proof {
                assert(line@ =~= s@.subrange(i as int, s@.len() as int));
            }
            r.push(line);
            proof {
                assert(r.deep_view() =~~= old_dv + seq![line@]);
                assert(spec_lines_from(s@, i as int) == seq![s@.subrange(i as int, s@.len() as int)]);
                assert(spec_lines(s@) =~~= r.deep_view());
            }
            return r;
        }
        // strip one trailing '\r'
        if line.len() > 0 && line[line.len() - 1] == '\r' {
            line.pop();
            assert(line@ =~= strip_cr(s@.subrange(i as int, j as int)));
        } else {
            assert(line@ == strip_cr(s@.subrange(i as int, j as int)));
        }
        let ghost lv = line@;
        let ghost i0 = i as int;
        r.push(line);
        i = j + 1;
        proof {
            assert(r.deep_view() =~~= old_dv + seq![lv]);
            assert(spec_lines_from(s@, i0) == seq![lv] + spec_lines_from(s@, i as int));
            assert(spec_lines(s@) =~~= r.deep_view() + spec_lines_from(s@, i as int));
        }
    }
    proof {
        assert(spec_lines_from(s@, i as int) =~= Seq::<Seq<char>>::empty());
        assert(spec_lines(s@) =~= r.deep_view());
    }
    r
}

/// Index of the first occurrence of `c` at or after `i`, or the length.
pub fn find_ch(s: &Vec<char>, i: usize, c: char) -> (j: usize)
    requires
        i <= s.len(),
    ensures
        j == find_char(s@, i as int, c),
        i <= j <= s.len(),
{
    let mut j: usize = i;
    while j < s.len()
        invariant
            i <= j <= s.len(),
            find_char(s@, i as int, c) == find_char(s@, j as int, c),
        decreases s.len() - j,
    {
        if s[j] == c {
            proof {
                lemma_find_char(s@, i as int, c);
            }
            return j;
        }
        j = j + 1;
    }
    proof {
        lemma_find_char(s@, i as int, c);
    }
    j
}

/// The segments of `s` split at `c`, under `str::split` semantics.
pub fn split_at_char(s: &Vec<char>, c: char) -> (r: Vec<Vec<char>>)
    ensures
        r.deep_view() == split_char(s@, c),
        r.len() >= 1,
{
    let mut r: Vec<Vec<char>> = Vec::new();
    let mut i: usize = 0;
    loop
        invariant
            i <= s.len(),
            split_char(s@, c) == r.deep_view() + split_char_from(s@, i as int, c),
        decreases s.len() - i,
    {
        let j = find_ch(s, i, c);
        let mut seg: Vec<char> = Vec::new();
        let mut k: usize = i;
        while k < j
            invariant
                i <= k <= j <= s.len(),
                seg@ == s@.subrange(i as int, k as int),
            decreases j - k,
        {
            seg.push(s[k]);
            k = k + 1;
            assert(seg@ =~= s@.subrange(i as int, k as int));
        }
        let ghost old_dv = r.deep_view();
        let ghost sv = seg@;
        let ghost i0 = i as int;
        r.push(seg);
        proof {
            assert(r.deep_view() =~~= old_dv + seq![sv]);
        }
        if j == s.len() {
            proof {
                assert(split_char_from(s@, i0, c) == seq![s@.subrange(i0, s@.len() as int)]);
                assert(split_char(s@, c) =~~= r.deep_view());
            }
            return r;
        }
        i = j + 1;
        proof {
            assert(split_char_from(s@, i0, c) == seq![sv] + split_char_from(s@, i as int, c));
            assert(split_char(s@, c) =~~= r.deep_view() + split_char_from(s@, i as int, c));
        }
    }
}

/// `s` with leading and trailing whitespace removed, as `str::trim`
/// performs it.
fn ws_start(s: &Vec<char>) -> (a: usize)
    ensures
        a == skip_ws(s@, 0),
        a <= s.len(),
{
    let mut a: usize = 0;
    while a < s.len()
        invariant
            a <= s.len(),
            skip_ws(s@, 0) == skip_ws(s@, a as int),
        decreases s.len() - a,
    {
        if !is_wspace_exec(s[a]) {
            return a;
        }
        a = a + 1;
    }
    a
}

fn ws_end(s: &Vec<char>) -> (b: usize)
    ensures
        b == rskip_ws(s@, s@.len() as int),
        b <= s.len(),
{
    let mut b: usize = s.len();
    while b > 0
        invariant
            b <= s.len(),
            rskip_ws(s@, s@.len() as int) == rskip_ws(s@, b as int),
        decreases b,
    {
        if !is_wspace_exec(s[b - 1]) {
            return b;
        }
        b = b - 1;
    }
    b
}

pub fn trim_chars(s: &Vec<char>) -> (r: Vec<char>)
    ensures
        r@ == trim_spec(s@),
{
    let a = ws_start(s);
    let b = ws_end(s);
    let mut r: Vec<char> = Vec::new();
    if b <= a {
        proof {
            assert(r@ =~= Seq::<char>::empty());
            if a <= b {
                assert(s@.subrange(a as int, b as int) =~= Seq::<char>::empty());
            }
        }
        return r;
    }
    let mut k: usize = a;
    while k < b
        invariant
            a <= k <= b <= s.len(),
            r@ == s@.subrange(a as int, k as int),
        decreases b - k,
    {
        r.push(s[k]);
        k = k + 1;
        assert(r@ =~= s@.subrange(a as int, k as int));
    }
    r
}

/// The number of occurrences of `c` in `s`.
pub fn count_char_exec(s: &Vec<char>, c: char) -> (n: usize)
    ensures
        n == count_char(s@, c),
        n <= s.len(),
{
    let mut n: usize = 0;
    let mut i: usize = 0;
    proof {
        assert(s@.subrange(0, 0) =~= Seq::<char>::empty());
    }
    while i < s.len()
        invariant
            i <= s.len(),
            n <= i,
            n == count_char(s@.subrange(0, i as int), c),
        decreases s.len() - i,
    {
        if s[i] == c {
            n = n + 1;
        }
        i = i + 1;
        proof {
            assert(s@.subrange(0, i as int).drop_last() =~= s@.subrange(0, i - 1));
        }
    }
    proof {
        assert(s@.subrange(0, s@.len() as int) =~= s@);
    }
    n
}

/// The digit character for a value below ten.
pub fn digit_char_exec(d: u64) -> (c: char)
    requires
        d < 10,
    ensures
        c == digit_char(d as nat),
{
    if d == 0 {
        '0'
    } else if d == 1 {
        '1'
    } else if d == 2 {
        '2'
    } else if d == 3 {
        '3'
    } else if d == 4 {
        '4'
    } else if d == 5 {
        '5'
    } else if d == 6 {
        '6'
    } else if d == 7 {
        '7'
    } else if d == 8 {
        '8'
    } else {
        '9'
    }
}

/// The decimal digits of `n`, most significant first.
pub fn dec_u64(n: u64) -> (r: Vec<char>)
    ensures
        r@ == dec_nat(n as nat),
    decreases n,
{
    if n < 10 {
        let mut r: Vec<char> = Vec::new();
        r.push(digit_char_exec(n));
        assert(r@ =~= seq![digit_char(n as nat)]);
        r
    } else {
        let mut r = dec_u64(n / 10);
        r.push(digit_char_exec(n % 10));
        assert(r@ =~= dec_nat((n / 10) as nat) + seq![digit_char((n % 10) as nat)]);
        r
    }
}

/// The decimal rendering of `n`, with a leading minus sign when negative,
/// as `{}` formatting renders an integer.
pub fn dec_i64(n: i64) -> (r: Vec<char>)
    ensures
        r@ == dec_int(n as int),
{
    if n < 0 {
        let m: u64 = if n == i64::MIN {
            9223372036854775808u64
        } else {
            (-n) as u64
        };
        assert(m == -(n as int));
        let mut r: Vec<char> = Vec::new();
        r.push('-');
        let d = dec_u64(m);
        extend_chars(&mut r, &d);
        proof {
            assert(r@ =~= seq!['-'] + dec_nat((-(n as int)) as nat));
        }
        r
    } else {
        dec_u64(n as u64)
    }
}

} // verus!
