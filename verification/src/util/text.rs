//! Operations on character sequences.
//!
//! Every parser in this library is stated over `Seq<char>`. This module holds
//! the vocabulary of those statements (whitespace, trimming, searching,
//! splitting, decimal numbers) and an executable counterpart for each entry,
//! working on `Vec<char>`.

use vstd::prelude::*;
use vstd::string::StringExecFns;

verus! {

/// Gives `String::push` its meaning on views: the character is appended.
pub assume_specification[ String::push ](s: &mut String, ch: char)
    ensures
        final(s)@ == old(s)@.push(ch),
;

/// The characters with the Unicode property `White_Space`.
pub open spec fn is_whitespace(c: char) -> bool {
    let n = c as u32;
    ||| 0x09 <= n <= 0x0D
    ||| n == 0x20
    ||| n == 0x85
    ||| n == 0xA0
    ||| n == 0x1680
    ||| 0x2000 <= n <= 0x200A
    ||| n == 0x2028
    ||| n == 0x2029
    ||| n == 0x202F
    ||| n == 0x205F
    ||| n == 0x3000
}

/// What counts as blank when trimming: any whitespace, or the space alone.
pub open spec fn is_blank(c: char, any_whitespace: bool) -> bool {
    if any_whitespace {
        is_whitespace(c)
    } else {
        c == ' '
    }
}

/// Whether `c` is whitespace.
pub fn char_is_whitespace(c: char) -> (b: bool)
    ensures
        b == is_whitespace(c),
{
    let n: u32 = c as u32;
    (0x09 <= n && n <= 0x0D) || n == 0x20 || n == 0x85 || n == 0xA0 || n == 0x1680 || (0x2000 <= n
        && n <= 0x200A) || n == 0x2028 || n == 0x2029 || n == 0x202F || n == 0x205F || n == 0x3000
}

/// Whether `c` is blank: whitespace, or the space alone.
pub fn char_is_blank(c: char, any_whitespace: bool) -> (b: bool)
    ensures
        b == is_blank(c, any_whitespace),
{
    if any_whitespace {
        char_is_whitespace(c)
    } else {
        c == ' '
    }
}

/// The characters of a string slice, in order.
pub fn to_chars(s: &str) -> (v: Vec<char>)
    ensures
        v@ == s@,
{
    let mut v: Vec<char> = Vec::new();
    for c in it: s.chars()
        invariant
            it.seq() == s@,
            v@ == s@.take(it.index() as int),
    {
        v.push(c);
    }
    v
}

/// The string made of the characters `v[from..to]`.
pub fn to_string(v: &Vec<char>, from: usize, to: usize) -> (s: String)
    requires
        from <= to <= v@.len(),
    ensures
        s@ == v@.subrange(from as int, to as int),
{
    let mut s = String::new();
    let mut i: usize = from;
    while i < to
        invariant
            from <= i <= to <= v@.len(),
            s@ == v@.subrange(from as int, i as int),
        decreases to - i,
    {
        s.push(v[i]);
        i += 1;
    }
    s
}

/// The string made of all the characters of `v`.
pub fn string_of(v: &Vec<char>) -> (s: String)
    ensures
        s@ == v@,
{
    let s = to_string(v, 0, v.len());
    assert(v@.subrange(0, v@.len() as int) == v@);
    s
}

/// The characters `v[from..to]` as a vector of their own.
pub fn slice(v: &Vec<char>, from: usize, to: usize) -> (r: Vec<char>)
    requires
        from <= to <= v@.len(),
    ensures
        r@ == v@.subrange(from as int, to as int),
{
    let mut r: Vec<char> = Vec::new();
    let mut i: usize = from;
    while i < to
        invariant
            from <= i <= to <= v@.len(),
            r@ == v@.subrange(from as int, i as int),
        decreases to - i,
    {
        r.push(v[i]);
        i += 1;
    }
    r
}

/// Whether two character vectors hold the same text.
pub fn same_text(a: &Vec<char>, b: &Vec<char>) -> (r: bool)
    ensures
        r == (a@ == b@),
{
    if a.len() != b.len() {
        return false;
    }
    let mut i: usize = 0;
    while i < a.len()
        invariant
            a@.len() == b@.len(),
            i <= a@.len(),
            a@.take(i as int) == b@.take(i as int),
        decreases a@.len() - i,
    {
        if a[i] != b[i] {
            return false;
        }
        assert(a@.take(i + 1) == a@.take(i as int).push(a@[i as int]));
        assert(b@.take(i + 1) == b@.take(i as int).push(b@[i as int]));
        i += 1;
    }
    assert(a@.take(a@.len() as int) == a@);
    assert(b@.take(b@.len() as int) == b@);
    true
}

/// The first index at or after `i` whose character is not blank; the length
/// of `s` where every character from `i` on is blank.
pub open spec fn skip_blank(s: Seq<char>, i: int, any_whitespace: bool) -> int
    decreases s.len() - i,
{
    if 0 <= i < s.len() && is_blank(s[i], any_whitespace) {
        skip_blank(s, i + 1, any_whitespace)
    } else {
        i
    }
}

/// The end of `s[..j]` once its trailing blanks are dropped.
pub open spec fn skip_blank_back(s: Seq<char>, j: int, any_whitespace: bool) -> int
    decreases j,
{
    if 0 < j <= s.len() && is_blank(s[j - 1], any_whitespace) {
        skip_blank_back(s, j - 1, any_whitespace)
    } else {
        j
    }
}

/// `s` without its leading and trailing blanks.
pub open spec fn strip(s: Seq<char>, any_whitespace: bool) -> Seq<char> {
    let a = skip_blank(s, 0, any_whitespace);
    let b = skip_blank_back(s, s.len() as int, any_whitespace);
    if a < b {
        s.subrange(a, b)
    } else {
        Seq::empty()
    }
}

/// `s` without leading and trailing whitespace.
pub open spec fn trim(s: Seq<char>) -> Seq<char> {
    strip(s, true)
}

/// `s` without leading and trailing spaces.
pub open spec fn trim_spaces(s: Seq<char>) -> Seq<char> {
    strip(s, false)
}

/// Skipping blanks ends at or after its start, passes only blanks, and ends
/// on a character that is none.
pub proof fn lemma_skip_blank_bounds(s: Seq<char>, i: int, any_whitespace: bool)
    requires
        0 <= i <= s.len(),
    ensures
        i <= skip_blank(s, i, any_whitespace) <= s.len(),
        forall|k: int| i <= k < skip_blank(s, i, any_whitespace) ==> is_blank(s[k], any_whitespace),
        skip_blank(s, i, any_whitespace) < s.len() ==> !is_blank(
            s[skip_blank(s, i, any_whitespace)],
            any_whitespace,
        ),
    decreases s.len() - i,
{
    if i < s.len() && is_blank(s[i], any_whitespace) {
        lemma_skip_blank_bounds(s, i + 1, any_whitespace);
    }
}

/// Dropping trailing blanks ends at or before its start, drops only blanks,
/// and ends behind a character that is none.
pub proof fn lemma_skip_blank_back_bounds(s: Seq<char>, j: int, any_whitespace: bool)
    requires
        0 <= j <= s.len(),
    ensures
        0 <= skip_blank_back(s, j, any_whitespace) <= j,
        forall|k: int|
            skip_blank_back(s, j, any_whitespace) <= k < j ==> is_blank(s[k], any_whitespace),
        skip_blank_back(s, j, any_whitespace) > 0 ==> !is_blank(
            s[skip_blank_back(s, j, any_whitespace) - 1],
            any_whitespace,
        ),
    decreases j,
{
    if 0 < j && is_blank(s[j - 1], any_whitespace) {
        lemma_skip_blank_back_bounds(s, j - 1, any_whitespace);
    }
}

/// `s` without its leading and trailing blanks, as a vector of its own.
pub fn strip_blanks(s: &Vec<char>, any_whitespace: bool) -> (r: Vec<char>)
    ensures
        r@ == strip(s@, any_whitespace),
{
    let n = s.len();
    let mut a: usize = 0;
    while a < n && char_is_blank(s[a], any_whitespace)
        invariant
            a <= n == s@.len(),
            skip_blank(s@, 0, any_whitespace) == skip_blank(s@, a as int, any_whitespace),
        decreases n - a,
    {
        a += 1;
    }
    let mut b: usize = n;
    while b > 0 && char_is_blank(s[b - 1], any_whitespace)
        invariant
            b <= n == s@.len(),
            skip_blank_back(s@, n as int, any_whitespace) == skip_blank_back(
                s@,
                b as int,
                any_whitespace,
            ),
        decreases b,
    {
        b -= 1;
    }
    if a < b {
        slice(s, a, b)
    } else {
        Vec::new()
    }
}

/// The first index at or after `i` that holds `c`; the length of `s` where
/// there is none.
pub open spec fn find_char(s: Seq<char>, c: char, i: int) -> int
    decreases s.len() - i,
{
    if 0 <= i < s.len() && s[i] != c {
        find_char(s, c, i + 1)
    } else {
        i
    }
}

/// The last index before `j` that holds `c`; `-1` where there is none.
pub open spec fn rfind_char(s: Seq<char>, c: char, j: int) -> int
    decreases j,
{
    if 0 < j <= s.len() && s[j - 1] != c {
        rfind_char(s, c, j - 1)
    } else {
        j - 1
    }
}

/// The search for a character passes none, and where it ends before the
/// end of the text it ends on one.
pub proof fn lemma_find_char_bounds(s: Seq<char>, c: char, i: int)
    requires
        0 <= i <= s.len(),
    ensures
        i <= find_char(s, c, i) <= s.len(),
        forall|k: int| i <= k < find_char(s, c, i) ==> s[k] != c,
        find_char(s, c, i) < s.len() ==> s[find_char(s, c, i)] == c,
    decreases s.len() - i,
{
    if i < s.len() && s[i] != c {
        lemma_find_char_bounds(s, c, i + 1);
    }
}

/// The search backwards for a character passes none, and where it ends at
/// an index it ends on one.
pub proof fn lemma_rfind_char_bounds(s: Seq<char>, c: char, j: int)
    requires
        0 <= j <= s.len(),
    ensures
        -1 <= rfind_char(s, c, j) < j,
        forall|k: int| rfind_char(s, c, j) < k < j ==> s[k] != c,
        rfind_char(s, c, j) >= 0 ==> s[rfind_char(s, c, j)] == c,
    decreases j,
{
    if 0 < j && s[j - 1] != c {
        lemma_rfind_char_bounds(s, c, j - 1);
    }
}

/// The first index at or after `from` that holds `c`.
pub fn index_of(s: &Vec<char>, c: char, from: usize) -> (r: Option<usize>)
    requires
        from <= s@.len(),
    ensures
        match r {
            Some(k) => k == find_char(s@, c, from as int) && from <= k < s@.len(),
            None => find_char(s@, c, from as int) == s@.len(),
        },
{
    let n = s.len();
    let mut i: usize = from;
    while i < n && s[i] != c
        invariant
            from <= i <= n == s@.len(),
            find_char(s@, c, from as int) == find_char(s@, c, i as int),
        decreases n - i,
    {
        i += 1;
    }
    if i < n {
        Some(i)
    } else {
        None
    }
}

/// The last index that holds `c`.
pub fn last_index_of(s: &Vec<char>, c: char) -> (r: Option<usize>)
    ensures
        match r {
            Some(k) => k == rfind_char(s@, c, s@.len() as int) && k < s@.len(),
            None => rfind_char(s@, c, s@.len() as int) == -1,
        },
{
    let n = s.len();
    let mut j: usize = n;
    while j > 0 && s[j - 1] != c
        invariant
            j <= n == s@.len(),
            rfind_char(s@, c, n as int) == rfind_char(s@, c, j as int),
        decreases j,
    {
        j -= 1;
    }
    if j > 0 {
        Some(j - 1)
    } else {
        None
    }
}

/// Whether `pat` stands in `s` at index `i`.
pub open spec fn matches_at(s: Seq<char>, pat: Seq<char>, i: int) -> bool {
    0 <= i && i + pat.len() <= s.len() && s.subrange(i, i + pat.len()) == pat
}

/// The first index at or after `i` where `pat` stands in `s`; `-1` where it
/// stands nowhere from `i` on.
pub open spec fn find_sub(s: Seq<char>, pat: Seq<char>, i: int) -> int
    decreases s.len() + 1 - i,
{
    if i < 0 || i + pat.len() > s.len() {
        -1
    } else if matches_at(s, pat, i) {
        i
    } else {
        find_sub(s, pat, i + 1)
    }
}

/// The search for a pattern ends where the pattern stands, and passes no
/// place where it stands.
pub proof fn lemma_find_sub_bounds(s: Seq<char>, pat: Seq<char>, i: int)
    requires
        0 <= i,
    ensures
        find_sub(s, pat, i) == -1 || (i <= find_sub(s, pat, i) && matches_at(
            s,
            pat,
            find_sub(s, pat, i),
        )),
        forall|k: int|
            i <= k && (find_sub(s, pat, i) == -1 || k < find_sub(s, pat, i)) ==> !matches_at(
                s,
                pat,
                k,
            ),
    decreases s.len() + 1 - i,
{
    if i + pat.len() > s.len() {
    } else if matches_at(s, pat, i) {
    } else {
        lemma_find_sub_bounds(s, pat, i + 1);
    }
}

/// Whether `pat` stands in `s` at index `i`.
pub fn has_at(s: &Vec<char>, pat: &Vec<char>, i: usize) -> (r: bool)
    ensures
        r == matches_at(s@, pat@, i as int),
{
    let n = s.len();
    let m = pat.len();
    if i > n || m > n - i {
        return false;
    }
    let mut k: usize = 0;
    while k < m
        invariant
            k <= m == pat@.len(),
            i + m <= n == s@.len(),
            s@.subrange(i as int, i + k) == pat@.take(k as int),
        decreases m - k,
    {
        if s[i + k] != pat[k] {
            assert(s@.subrange(i as int, i + m)[k as int] != pat@[k as int]);
            return false;
        }
        assert(s@.subrange(i as int, i + k + 1) == s@.subrange(i as int, i + k).push(
            s@[i + k],
        ));
        assert(pat@.take(k + 1) == pat@.take(k as int).push(pat@[k as int]));
        k += 1;
    }
    assert(pat@.take(m as int) == pat@);
    true
}

/// The first index at or after `from` where `pat` stands in `s`.
pub fn index_of_sub(s: &Vec<char>, pat: &Vec<char>, from: usize) -> (r: Option<usize>)
    ensures
        match r {
            Some(k) => k == find_sub(s@, pat@, from as int) && from <= k && k + pat@.len()
                <= s@.len(),
            None => find_sub(s@, pat@, from as int) == -1,
        },
{
    let n = s.len();
    let m = pat.len();
    if from > n || m > n - from {
        return None;
    }
    if m == 0 {
        assert(s@.subrange(from as int, from as int) == pat@);
        return Some(from);
    }
    let mut i: usize = from;
    while i <= n - m
        invariant
            from <= i,
            m == pat@.len(),
            n == s@.len(),
            0 < m <= n,
            i <= n - m + 1,
            find_sub(s@, pat@, from as int) == find_sub(s@, pat@, i as int),
        decreases n - m + 1 - i,
    {
        if has_at(s, pat, i) {
            return Some(i);
        }
        i += 1;
    }
    None
}

/// The views of the items of `v`, in order.
pub open spec fn views<T: View>(v: Seq<T>) -> Seq<T::V> {
    Seq::new(v.len(), |i: int| v[i]@)
}

/// The pieces of `s[pos..]` between occurrences of `sep`: one more piece than
/// there are separators.
pub open spec fn split_from(s: Seq<char>, sep: char, pos: int) -> Seq<Seq<char>>
    decreases s.len() - pos,
{
    if pos < 0 || pos > s.len() {
        Seq::empty()
    } else {
        let k = find_char(s, sep, pos);
        if pos <= k < s.len() {
            seq![s.subrange(pos, k)] + split_from(s, sep, k + 1)
        } else {
            seq![s.subrange(pos, s.len() as int)]
        }
    }
}

/// The pieces of `s` between occurrences of `sep`.
pub open spec fn split(s: Seq<char>, sep: char) -> Seq<Seq<char>> {
    split_from(s, sep, 0)
}

/// `s` without one trailing carriage return.
pub open spec fn strip_cr(s: Seq<char>) -> Seq<char> {
    if s.len() > 0 && s.last() == '\r' {
        s.drop_last()
    } else {
        s
    }
}

/// The lines of `s[pos..]`. A line ends at a line feed; a carriage return
/// right before that line feed belongs to the line ending. Text after the last
/// line feed is a line of its own unless it is empty.
pub open spec fn lines_from(s: Seq<char>, pos: int) -> Seq<Seq<char>>
    decreases s.len() - pos,
{
    if pos < 0 || pos >= s.len() {
        Seq::empty()
    } else {
        let k = find_char(s, '\n', pos);
        if pos <= k < s.len() {
            seq![strip_cr(s.subrange(pos, k))] + lines_from(s, k + 1)
        } else {
            seq![s.subrange(pos, s.len() as int)]
        }
    }
}

/// The lines of `s`.
pub open spec fn lines(s: Seq<char>) -> Seq<Seq<char>> {
    lines_from(s, 0)
}

/// The pieces of `s` between occurrences of `sep`.
pub fn split_chars(s: &Vec<char>, sep: char) -> (r: Vec<Vec<char>>)
    ensures
        views(r@) == split(s@, sep),
        r@.len() >= 1,
{
    let n = s.len();
    let mut r: Vec<Vec<char>> = Vec::new();
    let mut pos: usize = 0;
    loop
        invariant_except_break
            pos <= n == s@.len(),
            split(s@, sep) == views(r@) + split_from(s@, sep, pos as int),
        ensures
            views(r@) == split(s@, sep),
            r@.len() >= 1,
        decreases n - pos,
    {
        let ghost before = views(r@);
        match index_of(s, sep, pos) {
            Some(k) => {
                let piece = slice(s, pos, k);
                r.push(piece);
                assert(views(r@) == before.push(s@.subrange(pos as int, k as int)));
                assert(before + (seq![s@.subrange(pos as int, k as int)] + split_from(
                    s@,
                    sep,
                    k + 1,
                )) == before.push(s@.subrange(pos as int, k as int)) + split_from(s@, sep, k + 1));
                pos = k + 1;
            },
            None => {
                let piece = slice(s, pos, n);
                r.push(piece);
                assert(views(r@) == before.push(s@.subrange(pos as int, n as int)));
                assert(before + seq![s@.subrange(pos as int, n as int)] == before.push(
                    s@.subrange(pos as int, n as int),
                ));
                break ;
            },
        }
    }
    r
}

/// The lines of `s`.
pub fn split_lines(s: &Vec<char>) -> (r: Vec<Vec<char>>)
    ensures
        views(r@) == lines(s@),
{
    let n = s.len();
    let mut r: Vec<Vec<char>> = Vec::new();
    let mut pos: usize = 0;
    assert(views(r@) == Seq::<Seq<char>>::empty());
    while pos < n
        invariant
            pos <= n == s@.len(),
            lines(s@) == views(r@) + lines_from(s@, pos as int),
        decreases n - pos,
    {
        let ghost before = views(r@);
        match index_of(s, '\n', pos) {
            Some(k) => {
                let end = if k > pos && s[k - 1] == '\r' {
                    k - 1
                } else {
                    k
                };
                let piece = slice(s, pos, end);
                assert(piece@ == strip_cr(s@.subrange(pos as int, k as int)));
                r.push(piece);
                assert(views(r@) == before.push(piece@));
                assert(before + (seq![piece@] + lines_from(s@, k + 1)) == before.push(piece@)
                    + lines_from(s@, k + 1));
                pos = k + 1;
            },
            None => {
                let piece = slice(s, pos, n);
                r.push(piece);
                assert(views(r@) == before.push(piece@));
                assert(before + seq![piece@] == before.push(piece@));
                pos = n;
            },
        }
    }
    r
}

/// `s[i..]` without the occurrences of `pat`, found from left to right, none
/// overlapping the one before it.
pub open spec fn remove_from(s: Seq<char>, pat: Seq<char>, i: int) -> Seq<char>
    decreases s.len() - i,
{
    if i < 0 || i >= s.len() || pat.len() == 0 {
        Seq::empty()
    } else if matches_at(s, pat, i) {
        remove_from(s, pat, i + pat.len())
    } else {
        seq![s[i]] + remove_from(s, pat, i + 1)
    }
}

/// `s` without the occurrences of the non-empty `pat`.
pub open spec fn remove_all(s: Seq<char>, pat: Seq<char>) -> Seq<char> {
    if pat.len() == 0 {
        s
    } else {
        remove_from(s, pat, 0)
    }
}

/// `s` without the occurrences of `pat`; `s` itself where `pat` is empty.
pub fn remove_pattern(s: &Vec<char>, pat: &Vec<char>) -> (r: Vec<char>)
    ensures
        r@ == remove_all(s@, pat@),
{
    let n = s.len();
    let m = pat.len();
    if m == 0 {
        let r = slice(s, 0, n);
        assert(s@.subrange(0, n as int) == s@);
        return r;
    }
    let mut r: Vec<char> = Vec::new();
    let mut i: usize = 0;
    while i < n
        invariant
            i <= n == s@.len(),
            0 < m == pat@.len(),
            remove_from(s@, pat@, 0) == r@ + remove_from(s@, pat@, i as int),
        decreases n - i,
    {
        if has_at(s, pat, i) {
            i += m;
        } else {
            let ghost before = r@;
            r.push(s[i]);
            assert(before + (seq![s@[i as int]] + remove_from(s@, pat@, i + 1)) == before.push(
                s@[i as int],
            ) + remove_from(s@, pat@, i + 1));
            i += 1;
        }
    }
    assert(r@ + Seq::<char>::empty() == r@);
    r
}

/// `s` without the character `c`.
pub open spec fn without_char(s: Seq<char>, c: char) -> Seq<char>
    decreases s.len(),
{
    if s.len() == 0 {
        Seq::empty()
    } else if s.last() == c {
        without_char(s.drop_last(), c)
    } else {
        without_char(s.drop_last(), c).push(s.last())
    }
}

/// What is left after a character was removed does not hold it, and text
/// that never held it is left as it was.
pub proof fn lemma_without_char_free(s: Seq<char>, c: char)
    ensures
        forall|k: int| 0 <= k < without_char(s, c).len() ==> without_char(s, c)[k] != c,
        (forall|k: int| 0 <= k < s.len() ==> s[k] != c) ==> without_char(s, c) == s,
    decreases s.len(),
{
    if s.len() > 0 {
        let head = without_char(s.drop_last(), c);
        lemma_without_char_free(s.drop_last(), c);
        assert forall|k: int| 0 <= k < without_char(s, c).len() implies without_char(s, c)[k]
            != c by {
            if k < head.len() {
                assert(without_char(s, c)[k] == head[k]);
            }
        }
        if forall|k: int| 0 <= k < s.len() ==> s[k] != c {
            assert forall|k: int| 0 <= k < s.drop_last().len() implies s.drop_last()[k] != c by {
                assert(s.drop_last()[k] == s[k]);
            }
            assert(s.drop_last().push(s.last()) == s);
        }
    }
}

/// Removing a character twice removes no more than removing it once.
pub proof fn lemma_without_char_idempotent(s: Seq<char>, c: char)
    ensures
        without_char(without_char(s, c), c) == without_char(s, c),
{
    lemma_without_char_free(s, c);
    lemma_without_char_free(without_char(s, c), c);
}

/// `s` without the character `c`, as a vector of its own.
pub fn remove_char(s: &Vec<char>, c: char) -> (r: Vec<char>)
    ensures
        r@ == without_char(s@, c),
{
    let mut r: Vec<char> = Vec::new();
    let mut i: usize = 0;
    while i < s.len()
        invariant
            i <= s@.len(),
            r@ == without_char(s@.take(i as int), c),
        decreases s@.len() - i,
    {
        assert(s@.take(i + 1).drop_last() == s@.take(i as int));
        if s[i] != c {
            r.push(s[i]);
        }
        i += 1;
    }
    assert(s@.take(s@.len() as int) == s@);
    r
}

/// Where `c` does not occur, the search ends at the length.
pub proof fn lemma_find_char_absent(s: Seq<char>, c: char)
    requires
        forall|i: int| 0 <= i < s.len() ==> s[i] != c,
    ensures
        find_char(s, c, 0) == s.len(),
{
    lemma_find_char_bounds(s, c, 0);
}

/// The search ends at the first index that holds `c`.
pub proof fn lemma_find_char_first(s: Seq<char>, c: char, k: int)
    requires
        0 <= k < s.len(),
        s[k] == c,
        forall|i: int| 0 <= i < k ==> s[i] != c,
    ensures
        find_char(s, c, 0) == k,
{
    lemma_find_char_bounds(s, c, 0);
}

/// Text that neither starts nor ends with a blank is its own trimming.
pub proof fn lemma_strip_fixed(s: Seq<char>, any_whitespace: bool)
    requires
        s.len() > 0,
        !is_blank(s[0], any_whitespace),
        !is_blank(s.last(), any_whitespace),
    ensures
        strip(s, any_whitespace) == s,
{
    assert(s.subrange(0, s.len() as int) == s);
}

/// Removing a character from a concatenation removes it from each part.
pub proof fn lemma_without_char_concat(a: Seq<char>, b: Seq<char>, c: char)
    ensures
        without_char(a + b, c) == without_char(a, c) + without_char(b, c),
    decreases b.len(),
{
    if b.len() == 0 {
        assert(a + b == a);
        assert(without_char(a, c) + Seq::<char>::empty() == without_char(a, c));
    } else {
        lemma_without_char_concat(a, b.drop_last(), c);
        assert((a + b).drop_last() == a + b.drop_last());
        assert((a + b).last() == b.last());
        if b.last() != c {
            assert((without_char(a, c) + without_char(b.drop_last(), c)).push(b.last())
                == without_char(a, c) + without_char(b.drop_last(), c).push(b.last()));
        }
    }
}

/// The length of a text in bytes of UTF-8, as a machine word.
pub open spec fn byte_width(s: Seq<char>) -> usize {
    vstd::utf8::encode_utf8(s).len() as usize
}

/// The length of `s` in bytes.
pub fn width_of(s: &str) -> (n: usize)
    ensures
        n == byte_width(s@),
{
    s.len()
}

/// `piece` written `n` times over.
pub open spec fn repeated(piece: Seq<char>, n: nat) -> Seq<char>
    decreases n,
{
    if n == 0 {
        Seq::empty()
    } else {
        repeated(piece, (n - 1) as nat) + piece
    }
}

/// Appends `piece` to `out`, `n` times over.
pub fn push_repeated(out: &mut String, piece: &str, n: usize)
    ensures
        final(out)@ == old(out)@ + repeated(piece@, n as nat),
{
    let mut i: usize = 0;
    assert(out@ + repeated(piece@, 0) == out@);
    while i < n
        invariant
            i <= n,
            out@ == old(out)@ + repeated(piece@, i as nat),
        decreases n - i,
    {
        out.append(piece);
        assert((old(out)@ + repeated(piece@, i as nat)) + piece@ == old(out)@ + (repeated(
            piece@,
            i as nat,
        ) + piece@));
        i += 1;
    }
}

/// Appends the characters of `v` to `s`.
pub fn push_chars(s: &mut String, v: &Vec<char>)
    ensures
        final(s)@ == old(s)@ + v@,
{
    let mut i: usize = 0;
    assert(s@ == old(s)@ + v@.take(0));
    while i < v.len()
        invariant
            i <= v@.len(),
            s@ == old(s)@ + v@.take(i as int),
        decreases v@.len() - i,
    {
        s.push(v[i]);
        assert(v@.take(i + 1) == v@.take(i as int).push(v@[i as int]));
        assert((old(s)@ + v@.take(i as int)).push(v@[i as int]) == old(s)@ + v@.take(i + 1));
        i += 1;
    }
    assert(v@.take(v@.len() as int) == v@);
}

/// `s[i..]` with `with` in the place of each occurrence of `pat`, found from
/// left to right, none overlapping the one before it.
pub open spec fn replace_from(s: Seq<char>, pat: Seq<char>, with: Seq<char>, i: int) -> Seq<char>
    decreases s.len() - i,
{
    if i < 0 || i >= s.len() || pat.len() == 0 {
        Seq::empty()
    } else if matches_at(s, pat, i) {
        with + replace_from(s, pat, with, i + pat.len())
    } else {
        seq![s[i]] + replace_from(s, pat, with, i + 1)
    }
}

/// `s` with `with` in the place of each occurrence of the non-empty `pat`.
pub open spec fn replace_all(s: Seq<char>, pat: Seq<char>, with: Seq<char>) -> Seq<char> {
    if pat.len() == 0 {
        s
    } else {
        replace_from(s, pat, with, 0)
    }
}

/// `s` with `with` in the place of each occurrence of `pat`; `s` itself
/// where `pat` is empty.
pub fn replace_pattern(s: &Vec<char>, pat: &Vec<char>, with: &Vec<char>) -> (r: Vec<char>)
    ensures
        r@ == replace_all(s@, pat@, with@),
{
    let n = s.len();
    let m = pat.len();
    if m == 0 {
        let r = slice(s, 0, n);
        assert(s@.subrange(0, n as int) == s@);
        return r;
    }
    let mut r: Vec<char> = Vec::new();
    let mut i: usize = 0;
    while i < n
        invariant
            i <= n == s@.len(),
            0 < m == pat@.len(),
            replace_from(s@, pat@, with@, 0) == r@ + replace_from(s@, pat@, with@, i as int),
        decreases n - i,
    {
        let ghost before = r@;
        if has_at(s, pat, i) {
            let mut k: usize = 0;
            while k < with.len()
                invariant
                    k <= with@.len(),
                    r@ == before + with@.take(k as int),
                decreases with@.len() - k,
            {
                r.push(with[k]);
                assert(with@.take(k + 1) == with@.take(k as int).push(with@[k as int]));
                k += 1;
            }
            assert(with@.take(with@.len() as int) == with@);
            assert(before + (with@ + replace_from(s@, pat@, with@, i + m)) == (before + with@)
                + replace_from(s@, pat@, with@, i + m));
            i += m;
        } else {
            r.push(s[i]);
            assert(before + (seq![s@[i as int]] + replace_from(s@, pat@, with@, i + 1))
                == before.push(s@[i as int]) + replace_from(s@, pat@, with@, i + 1));
            i += 1;
        }
    }
    assert(r@ + Seq::<char>::empty() == r@);
    r
}

/// Whether `pat` stands somewhere in `s`.
pub open spec fn contains_sub(s: Seq<char>, pat: Seq<char>) -> bool {
    find_sub(s, pat, 0) >= 0
}

/// Whether `pat` stands somewhere in `s`.
pub fn has_sub(s: &Vec<char>, pat: &Vec<char>) -> (r: bool)
    ensures
        r == contains_sub(s@, pat@),
{
    index_of_sub(s, pat, 0).is_some()
}

/// What stands in `s` before the first occurrence of `pat`: all of `s`
/// where `pat` does not occur.
pub open spec fn piece_before(s: Seq<char>, pat: Seq<char>) -> Seq<char> {
    let at = find_sub(s, pat, 0);
    if 0 <= at <= s.len() {
        s.subrange(0, at)
    } else {
        s
    }
}

/// What stands in `s` between the first occurrence of the non-empty `pat`
/// and the second: nothing where `pat` does not occur, and everything behind
/// the first occurrence where it occurs once.
pub open spec fn piece_after(s: Seq<char>, pat: Seq<char>) -> Seq<char> {
    let at = find_sub(s, pat, 0);
    if 0 <= at && at + pat.len() <= s.len() {
        let next = find_sub(s, pat, at + pat.len());
        if at + pat.len() <= next <= s.len() {
            s.subrange(at + pat.len(), next)
        } else {
            s.subrange(at + pat.len(), s.len() as int)
        }
    } else {
        Seq::empty()
    }
}

/// The pieces of `s` before and after the first occurrence of `pat`.
pub fn pieces_around(s: &Vec<char>, pat: &Vec<char>) -> (r: (Vec<char>, Vec<char>))
    ensures
        r.0@ == piece_before(s@, pat@),
        r.1@ == piece_after(s@, pat@),
{
    let n = s.len();
    match index_of_sub(s, pat, 0) {
        Some(at) => {
            let from = at + pat.len();
            let before = slice(s, 0, at);
            match index_of_sub(s, pat, from) {
                Some(next) => (before, slice(s, from, next)),
                None => (before, slice(s, from, n)),
            }
        },
        None => {
            let all = slice(s, 0, s.len());
            assert(s@.subrange(0, s@.len() as int) == s@);
            (all, Vec::new())
        },
    }
}

/// The first index at or after `i` whose character is whitespace; the length
/// of `s` where there is none.
pub open spec fn skip_word(s: Seq<char>, i: int) -> int
    decreases s.len() - i,
{
    if 0 <= i < s.len() && !is_whitespace(s[i]) {
        skip_word(s, i + 1)
    } else {
        i
    }
}

/// Among the words of `s[pos..]`, parted by whitespace, the one with the
/// number `n`, counted from zero.
pub open spec fn word_from(s: Seq<char>, pos: int, n: nat) -> Option<Seq<char>>
    decreases s.len() - pos, n,
{
    let a = skip_blank(s, pos, true);
    if pos < 0 || a < pos || a >= s.len() {
        None
    } else {
        let b = skip_word(s, a);
        if b <= a || b > s.len() {
            None
        } else if n == 0 {
            Some(s.subrange(a, b))
        } else {
            word_from(s, b, (n - 1) as nat)
        }
    }
}

/// The word of `s` with the number `n`, counted from zero.
pub open spec fn word(s: Seq<char>, n: nat) -> Option<Seq<char>> {
    word_from(s, 0, n)
}

/// The word of `s` with the number `n`, counted from zero.
pub fn nth_word(s: &Vec<char>, n: usize) -> (r: Option<Vec<char>>)
    ensures
        match r {
            Some(w) => word(s@, n as nat) == Some(w@),
            None => word(s@, n as nat) is None,
        },
{
    let len = s.len();
    let mut pos: usize = 0;
    let mut left: usize = n;
    loop
        invariant
            pos <= len == s@.len(),
            word(s@, n as nat) == word_from(s@, pos as int, left as nat),
        decreases len - pos, left,
    {
        let mut a: usize = pos;
        while a < len && char_is_whitespace(s[a])
            invariant
                pos <= a <= len == s@.len(),
                skip_blank(s@, pos as int, true) == skip_blank(s@, a as int, true),
            decreases len - a,
        {
            a += 1;
        }
        if a >= len {
            return None;
        }
        let mut b: usize = a;
        while b < len && !char_is_whitespace(s[b])
            invariant
                a <= b <= len == s@.len(),
                skip_word(s@, a as int) == skip_word(s@, b as int),
            decreases len - b,
        {
            b += 1;
        }
        assert(b > a);
        if left == 0 {
            return Some(slice(s, a, b));
        }
        left -= 1;
        pos = b;
    }
}

} // verus!
