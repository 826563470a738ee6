//! Character-sequence utilities shared by the shader converters.
//!
//! Shader text is handled as `Vec<char>`; its view is the `Seq<char>` that the
//! contracts speak of. The spec functions here give the meaning of the standard
//! string operations that the converters rely on (`contains`, `find`,
//! `replace`, `trim`, `lines`, decimal formatting).
use vstd::prelude::*;

verus! {

/// Copies the characters of a string slice into a vector.
#[verifier::external_body]
pub fn chars_of(s: &str) -> (v: Vec<char>)
    ensures
        v@ == s@,
{
    s.chars().collect()
}

/// Builds a `String` from a character sequence.
#[verifier::external_body]
pub fn string_of(v: &[char]) -> (s: String)
    ensures
        s@ == v@,
{
    v.iter().collect()
}

/// Appends the characters of `s` to `out`.
pub fn push_str(out: &mut Vec<char>, s: &str)
    ensures
        final(out)@ == old(out)@ + s@,
{
    let mut t = chars_of(s);
    out.append(&mut t);
}

/// Appends the characters of `s` to `out`.
pub fn push_chars(out: &mut Vec<char>, s: &[char])
    ensures
        final(out)@ == old(out)@ + s@,
{
    let ghost start = out@;
    let mut i: usize = 0;
    while i < s.len()
        invariant
            i <= s@.len(),
            out@ == start + s@.subrange(0, i as int),
        decreases s@.len() - i,
    {
        out.push(s[i]);
        i = i + 1;
        assert(out@ =~= start + s@.subrange(0, i as int));
    }
    assert(s@.subrange(0, s@.len() as int) =~= s@);
}

/// Pieces joined with a separator between consecutive ones.
pub open spec fn join_with(pieces: Seq<Seq<char>>, sep: Seq<char>) -> Seq<char>
    decreases pieces.len(),
{
    if pieces.len() == 0 {
        Seq::empty()
    } else if pieces.len() == 1 {
        pieces[0]
    } else {
        join_with(pieces.drop_last(), sep) + sep + pieces.last()
    }
}

/// Joins strings with a separator between consecutive ones.
pub fn join_strings(pieces: &Vec<String>, sep: &str) -> (r: String)
    ensures
        r@ == join_with(pieces@.map_values(|s: String| s@), sep@),
{
    let ghost all = pieces@.map_values(|s: String| s@);
    let mut out: Vec<char> = Vec::new();
    let mut i: usize = 0;
    while i < pieces.len()
        invariant
            i <= pieces@.len(),
            all == pieces@.map_values(|s: String| s@),
            out@ == join_with(all.subrange(0, i as int), sep@),
        decreases pieces@.len() - i,
    {
        if i > 0 {
            push_str(&mut out, sep);
        }
        push_str(&mut out, pieces[i].as_str());
        assert(all.subrange(0, i + 1).drop_last() =~= all.subrange(0, i as int));
        assert(all.subrange(0, i + 1).last() == pieces@[i as int]@);
        if i == 0 {
            assert(out@ =~= join_with(all.subrange(0, 1), sep@));
        }
        i = i + 1;
    }
    assert(all.subrange(0, i as int) =~= all);
    string_of(out.as_slice())
}

/// Copies a character slice into a fresh vector.
pub fn to_vec(s: &[char]) -> (v: Vec<char>)
    ensures
        v@ == s@,
{
    let mut v: Vec<char> = Vec::new();
    push_chars(&mut v, s);
    v
}

/// `pat` occurs in `s` at position `i`.
pub open spec fn occurs_at(s: Seq<char>, pat: Seq<char>, i: int) -> bool {
    0 <= i && i + pat.len() <= s.len() && s.subrange(i, i + pat.len()) == pat
}

/// `pat` is a substring of `s` (the empty pattern is a substring of every text).
pub open spec fn contains(s: Seq<char>, pat: Seq<char>) -> bool {
    exists|i: int| occurs_at(s, pat, i)
}

/// The first position at or after `from` where `pat` occurs, if any.
pub open spec fn find_from(s: Seq<char>, pat: Seq<char>, from: int) -> Option<int>
    decreases s.len() - from,
{
    if from < 0 || from + pat.len() > s.len() {
        None
    } else if occurs_at(s, pat, from) {
        Some(from)
    } else if from >= s.len() {
        None
    } else {
        find_from(s, pat, from + 1)
    }
}

/// The first position where `pat` occurs, if any.
pub open spec fn find(s: Seq<char>, pat: Seq<char>) -> Option<int> {
    find_from(s, pat, 0)
}

pub proof fn lemma_find_from(s: Seq<char>, pat: Seq<char>, from: int)
    requires
        0 <= from,
    ensures
        find_from(s, pat, from) matches Some(p) ==> from <= p && occurs_at(s, pat, p) && (forall|
            j: int,
        | from <= j < p ==> !occurs_at(s, pat, j)),
        find_from(s, pat, from) is None ==> forall|j: int| from <= j ==> !occurs_at(s, pat, j),
    decreases s.len() - from,
{
    if from + pat.len() > s.len() {
    } else if occurs_at(s, pat, from) {
    } else if from >= s.len() {
        if pat.len() == 0 {
            assert(s.subrange(from, from + pat.len()) =~= pat);
        }
    } else {
        lemma_find_from(s, pat, from + 1);
    }
}

pub proof fn lemma_find(s: Seq<char>, pat: Seq<char>)
    ensures
        find(s, pat) matches Some(p) ==> occurs_at(s, pat, p) && (forall|j: int|
            0 <= j < p ==> !occurs_at(s, pat, j)),
        find(s, pat) is None <==> !contains(s, pat),
{
    lemma_find_from(s, pat, 0);
}

/// Whether `pat` occurs in `s` at position `i`.
pub fn occurs_at_exec(s: &[char], pat: &[char], i: usize) -> (b: bool)
    ensures
        b == occurs_at(s@, pat@, i as int),
{
    if i > s.len() || pat.len() > s.len() - i {
        return false;
    }
    let mut k: usize = 0;
    while k < pat.len()
        invariant
            k <= pat@.len(),
            i + pat@.len() <= s@.len(),
            forall|j: int| 0 <= j < k ==> s@[i + j] == pat@[j],
        decreases pat@.len() - k,
    {
        assert(i + k < s@.len());
        assert(s@.len() == s.len());
        if s[i + k] != pat[k] {
            assert(s@.subrange(i as int, i + pat@.len())[k as int] != pat@[k as int]);
            return false;
        }
        k = k + 1;
    }
    assert(s@.subrange(i as int, i + pat@.len()) =~= pat@);
    true
}

/// The first position at or after `from` where `pat` occurs.
pub fn find_from_exec(s: &[char], pat: &[char], from: usize) -> (r: Option<usize>)
    ensures
        r matches Some(p) ==> find_from(s@, pat@, from as int) == Some(p as int),
        r is None ==> find_from(s@, pat@, from as int) is None,
{
    if pat.len() == 0 {
        if from <= s.len() {
            assert(s@.subrange(from as int, from as int) =~= pat@);
            return Some(from);
        }
        return None;
    }
    let mut i = from;
    while i <= s.len() && pat.len() <= s.len() - i
        invariant
            from <= i,
            pat@.len() > 0,
            find_from(s@, pat@, from as int) == find_from(s@, pat@, i as int),
        decreases s@.len() + 1 - i,
    {
        if occurs_at_exec(s, pat, i) {
            return Some(i);
        }
        i = i + 1;
    }
    None
}

/// The first position where `pat` occurs.
pub fn find_exec(s: &[char], pat: &[char]) -> (r: Option<usize>)
    ensures
        r matches Some(p) ==> find(s@, pat@) == Some(p as int),
        r is None ==> find(s@, pat@) is None,
{
    find_from_exec(s, pat, 0)
}

/// Whether `pat` occurs in `s`.
pub fn contains_exec(s: &[char], pat: &[char]) -> (b: bool)
    ensures
        b == contains(s@, pat@),
{
    proof {
        lemma_find(s@, pat@);
    }
    find_exec(s, pat).is_some()
}

/// Whether `pat` occurs in `s`.
pub fn contains_str(s: &[char], pat: &str) -> (b: bool)
    ensures
        b == contains(s@, pat@),
{
    let p = chars_of(pat);
    contains_exec(s, p.as_slice())
}

/// Whether `s` begins with `pat`.
pub open spec fn starts_with(s: Seq<char>, pat: Seq<char>) -> bool {
    occurs_at(s, pat, 0)
}

/// Whether `s` begins with `pat`.
pub fn starts_with_str(s: &[char], pat: &str) -> (b: bool)
    ensures
        b == starts_with(s@, pat@),
{
    let p = chars_of(pat);
    occurs_at_exec(s, p.as_slice(), 0)
}

/// Every non-overlapping occurrence of `from`, scanned left to right, replaced by `to`.
/// An empty pattern leaves the text as it is.
pub open spec fn replace_all(s: Seq<char>, from: Seq<char>, to: Seq<char>) -> Seq<char>
    decreases s.len(),
{
    if from.len() == 0 || s.len() < from.len() {
        s
    } else if s.subrange(0, from.len() as int) == from {
        to + replace_all(s.subrange(from.len() as int, s.len() as int), from, to)
    } else {
        seq![s[0]] + replace_all(s.subrange(1, s.len() as int), from, to)
    }
}

/// Replaces every occurrence of `from` by `to`, leftmost first.
pub fn replace_exec(s: &[char], from: &[char], to: &[char]) -> (r: Vec<char>)
    ensures
        r@ == replace_all(s@, from@, to@),
{
    if from.len() == 0 {
        return to_vec(s);
    }
    let mut out: Vec<char> = Vec::new();
    let mut i: usize = 0;
    assert(s@.subrange(0, s@.len() as int) =~= s@);
    assert(out@ + s@ =~= s@);
    while i < s.len()
        invariant
            i <= s@.len(),
            from@.len() > 0,
            out@ + replace_all(s@.subrange(i as int, s@.len() as int), from@, to@) == replace_all(
                s@,
                from@,
                to@,
            ),
        decreases s@.len() - i,
    {
        let ghost rest = s@.subrange(i as int, s@.len() as int);
        if occurs_at_exec(s, from, i) {
            assert(rest.subrange(0, from@.len() as int) =~= s@.subrange(
                i as int,
                i + from@.len(),
            ));
            assert(rest.subrange(from@.len() as int, rest.len() as int) =~= s@.subrange(
                i + from@.len(),
                s@.len() as int,
            ));
            push_chars(&mut out, to);
            assert(out@ + replace_all(s@.subrange(i + from@.len(), s@.len() as int), from@, to@)
                =~= replace_all(s@, from@, to@));
            i = i + from.len();
        } else {
            proof {
                if rest.len() >= from@.len() {
                    assert(rest.subrange(0, from@.len() as int) =~= s@.subrange(
                        i as int,
                        i + from@.len(),
                    ));
                }
            }
            assert(rest.subrange(1, rest.len() as int) =~= s@.subrange(i + 1, s@.len() as int));
            out.push(s[i]);
            assert(out@ + replace_all(s@.subrange(i + 1, s@.len() as int), from@, to@) =~= replace_all(
                s@,
                from@,
                to@,
            ));
            i = i + 1;
        }
    }
    assert(s@.subrange(i as int, s@.len() as int) =~= Seq::<char>::empty());
    assert(out@ + Seq::<char>::empty() =~= out@);
    out
}

/// Replaces every occurrence of `from` by `to` in `s`.
pub fn replace_str(s: &[char], from: &str, to: &str) -> (r: Vec<char>)
    ensures
        r@ == replace_all(s@, from@, to@),
{
    let f = chars_of(from);
    let t = chars_of(to);
    replace_exec(s, f.as_slice(), t.as_slice())
}

/// The characters with the Unicode `White_Space` property.
pub open spec fn is_space(c: char) -> bool {
    ('\u{9}' <= c && c <= '\u{d}') || c == ' ' || c == '\u{85}' || c == '\u{a0}' || c
        == '\u{1680}' || ('\u{2000}' <= c && c <= '\u{200a}') || c == '\u{2028}' || c
        == '\u{2029}' || c == '\u{202f}' || c == '\u{205f}' || c == '\u{3000}'
}

/// Whether `c` is a white-space character.
pub fn is_space_exec(c: char) -> (b: bool)
    ensures
        b == is_space(c),
{
    ('\u{9}' <= c && c <= '\u{d}') || c == ' ' || c == '\u{85}' || c == '\u{a0}' || c
        == '\u{1680}' || ('\u{2000}' <= c && c <= '\u{200a}') || c == '\u{2028}' || c
        == '\u{2029}' || c == '\u{202f}' || c == '\u{205f}' || c == '\u{3000}'
}

/// Number of leading white-space characters of `s`.
pub open spec fn leading_space(s: Seq<char>) -> nat
    decreases s.len(),
{
    if s.len() > 0 && is_space(s[0]) {
        1 + leading_space(s.subrange(1, s.len() as int))
    } else {
        0
    }
}

/// Number of trailing white-space characters of `s`.
pub open spec fn trailing_space(s: Seq<char>) -> nat
    decreases s.len(),
{
    if s.len() > 0 && is_space(s.last()) {
        1 + trailing_space(s.drop_last())
    } else {
        0
    }
}

/// `s` without its leading white space.
pub open spec fn trim_start(s: Seq<char>) -> Seq<char> {
    s.subrange(leading_space(s) as int, s.len() as int)
}

/// `s` without its trailing white space.
pub open spec fn trim_end(s: Seq<char>) -> Seq<char> {
    s.subrange(0, s.len() - trailing_space(s))
}

/// `s` without leading and trailing white space.
pub open spec fn trim(s: Seq<char>) -> Seq<char> {
    trim_end(trim_start(s))
}

proof fn lemma_leading_space_bound(s: Seq<char>)
    ensures
        leading_space(s) <= s.len(),
        forall|j: int| 0 <= j < leading_space(s) ==> is_space(s[j]),
        leading_space(s) < s.len() ==> !is_space(s[leading_space(s) as int]),
    decreases s.len(),
{
    if s.len() > 0 && is_space(s[0]) {
        let t = s.subrange(1, s.len() as int);
        lemma_leading_space_bound(t);
        assert forall|j: int| 0 <= j < leading_space(s) implies is_space(s[j]) by {
            if j > 0 {
                assert(s[j] == t[j - 1]);
            }
        }
    }
}

proof fn lemma_trailing_space_bound(s: Seq<char>)
    ensures
        trailing_space(s) <= s.len(),
        forall|j: int| s.len() - trailing_space(s) <= j < s.len() ==> is_space(s[j]),
        trailing_space(s) < s.len() ==> !is_space(s[s.len() - trailing_space(s) - 1]),
    decreases s.len(),
{
    if s.len() > 0 && is_space(s.last()) {
        let t = s.drop_last();
        lemma_trailing_space_bound(t);
        assert forall|j: int| s.len() - trailing_space(s) <= j < s.len() implies is_space(
            s[j],
        ) by {
            if j < s.len() - 1 {
                assert(s[j] == t[j]);
            }
        }
    }
}

/// Uniquely characterizes the leading-space count.
proof fn lemma_leading_space_unique(s: Seq<char>, k: int)
    requires
        0 <= k <= s.len(),
        forall|j: int| 0 <= j < k ==> is_space(s[j]),
        k < s.len() ==> !is_space(s[k]),
    ensures
        leading_space(s) == k,
    decreases s.len(),
{
    if s.len() > 0 && is_space(s[0]) {
        let t = s.subrange(1, s.len() as int);
        assert(k > 0);
        assert forall|j: int| 0 <= j < k - 1 implies is_space(t[j]) by {
            assert(t[j] == s[j + 1]);
        }
        if k - 1 < t.len() {
            assert(t[k - 1] == s[k]);
        }
        lemma_leading_space_unique(t, k - 1);
    }
}

proof fn lemma_trailing_space_unique(s: Seq<char>, k: int)
    requires
        0 <= k <= s.len(),
        forall|j: int| s.len() - k <= j < s.len() ==> is_space(s[j]),
        k < s.len() ==> !is_space(s[s.len() - k - 1]),
    ensures
        trailing_space(s) == k,
    decreases s.len(),
{
    if s.len() > 0 && is_space(s.last()) {
        let t = s.drop_last();
        assert(k > 0);
        assert forall|j: int| t.len() - (k - 1) <= j < t.len() implies is_space(t[j]) by {
            assert(t[j] == s[j]);
        }
        if k - 1 < t.len() {
            assert(t[t.len() - (k - 1) - 1] == s[s.len() - k - 1]);
        }
        lemma_trailing_space_unique(t, k - 1);
    }
}

/// `s` with leading and trailing white space removed.
pub fn trim_exec(s: &[char]) -> (r: Vec<char>)
    ensures
        r@ == trim(s@),
{
    let mut a: usize = 0;
    while a < s.len() && is_space_exec(s[a])
        invariant
            a <= s@.len(),
            forall|j: int| 0 <= j < a ==> is_space(s@[j]),
        decreases s@.len() - a,
    {
        a = a + 1;
    }
    proof {
        lemma_leading_space_unique(s@, a as int);
    }
    let ghost t = s@.subrange(a as int, s@.len() as int);
    let mut b: usize = s.len();
    while b > a && is_space_exec(s[b - 1])
        invariant
            a <= b <= s@.len(),
            forall|j: int| b <= j < s@.len() ==> is_space(s@[j]),
        decreases b,
    {
        b = b - 1;
    }
    proof {
        let k = (s@.len() - b) as int;
        assert forall|j: int| t.len() - k <= j < t.len() implies is_space(t[j]) by {
            assert(t[j] == s@[j + a]);
        }
        if k < t.len() {
            assert(t[t.len() - k - 1] == s@[b - 1]);
        }
        lemma_trailing_space_unique(t, k);
    }
    let mut r: Vec<char> = Vec::new();
    let mut i = a;
    while i < b
        invariant
            a <= i <= b <= s@.len(),
            r@ == s@.subrange(a as int, i as int),
        decreases b - i,
    {
        r.push(s[i]);
        i = i + 1;
        assert(r@ =~= s@.subrange(a as int, i as int));
    }
    assert(trim(s@) =~= s@.subrange(a as int, b as int));
    r
}

/// The pieces of `s` separated by `'\n'`; the piece after a final `'\n'` is not a line.
pub open spec fn split_lines(s: Seq<char>) -> Seq<Seq<char>>
    decreases s.len(),
{
    if s.len() == 0 {
        seq![]
    } else {
        proof {
            lemma_find(s, seq!['\n']);
        }
        match find(s, seq!['\n']) {
            Some(p) => seq![s.subrange(0, p)] + split_lines(s.subrange(p + 1, s.len() as int)),
            None => seq![s],
        }
    }
}

/// A line without its trailing carriage return.
pub open spec fn strip_cr(l: Seq<char>) -> Seq<char> {
    if l.len() > 0 && l.last() == '\r' {
        l.drop_last()
    } else {
        l
    }
}

/// The lines of `s`, as `str::lines` yields them.
pub open spec fn lines(s: Seq<char>) -> Seq<Seq<char>> {
    split_lines(s).map_values(|l: Seq<char>| strip_cr(l))
}

/// The lines of `s`, as `str::lines` yields them.
pub fn lines_exec(s: &[char]) -> (r: Vec<Vec<char>>)
    ensures
        r@.len() == lines(s@).len(),
        forall|k: int| 0 <= k < r@.len() ==> #[trigger] r@[k]@ == lines(s@)[k],
{
    let mut out: Vec<Vec<char>> = Vec::new();
    let mut start: usize = 0;
    let nl = ['\n'];
    proof {
        assert(s@.subrange(0, s@.len() as int) =~= s@);
    }
    while start < s.len()
        invariant
            start <= s@.len(),
            nl@ == seq!['\n'],
            out@.len() + split_lines(s@.subrange(start as int, s@.len() as int)).len() == split_lines(
                s@,
            ).len(),
            forall|k: int|
                0 <= k < out@.len() ==> #[trigger] out@[k]@ == strip_cr(split_lines(s@)[k]),
            forall|k: int|
                0 <= k < split_lines(s@.subrange(start as int, s@.len() as int)).len() ==> split_lines(
                    s@,
                )[out@.len() + k] == #[trigger] split_lines(
                    s@.subrange(start as int, s@.len() as int),
                )[k],
        decreases s@.len() - start,
    {
        let ghost rest = s@.subrange(start as int, s@.len() as int);
        let ghost n0 = out@.len();
        let f = find_from_exec(s, &nl, start);
        proof {
            lemma_find_from(s@, nl@, start as int);
            lemma_find(rest, nl@);
        }
        let end = match f {
            Some(p) => p,
            None => s.len(),
        };
        proof {
            match f {
                Some(p) => {
                    assert forall|j: int| 0 <= j < p - start implies !occurs_at(rest, nl@, j) by {
                        assert(!occurs_at(s@, nl@, j + start));
                        assert(rest.subrange(j, j + 1) =~= s@.subrange(j + start, j + start + 1));
                    }
                    assert(rest.subrange(p - start, p - start + 1) =~= s@.subrange(
                        p as int,
                        p + 1,
                    ));
                    assert(find(rest, nl@) == Some((p - start) as int)) by {
                        lemma_find_unique(rest, nl@, (p - start) as int);
                    }
                    assert(rest.subrange(0, p - start) =~= s@.subrange(start as int, p as int));
                    assert(rest.subrange(p - start + 1, rest.len() as int) =~= s@.subrange(
                        p + 1,
                        s@.len() as int,
                    ));
                },
                None => {
                    assert forall|j: int| 0 <= j implies !occurs_at(rest, nl@, j) by {
                        if j + 1 <= rest.len() {
                            assert(!occurs_at(s@, nl@, j + start));
                            assert(rest.subrange(j, j + 1) =~= s@.subrange(
                                j + start,
                                j + start + 1,
                            ));
                        }
                    }
                },
            }
        }
        let mut line: Vec<char> = Vec::new();
        let mut i = start;
        while i < end
            invariant
                start <= i <= end <= s@.len(),
                line@ == s@.subrange(start as int, i as int),
            decreases end - i,
        {
            line.push(s[i]);
            i = i + 1;
            assert(line@ =~= s@.subrange(start as int, i as int));
        }
        if line.len() > 0 && line[line.len() - 1] == '\r' {
            line.pop();
        }
        assert(line@ == strip_cr(s@.subrange(start as int, end as int)));
        out.push(line);
        proof {
            assert(split_lines(s@)[n0 as int] == split_lines(rest)[0]);
        }
        if end == s.len() {
            start = s.len();
            proof {
                assert(s@.subrange(start as int, s@.len() as int) =~= Seq::<char>::empty());
            }
        } else {
            start = end + 1;
            proof {
                let nrest = s@.subrange(start as int, s@.len() as int);
                assert forall|k: int| 0 <= k < split_lines(nrest).len() implies split_lines(
                    s@,
                )[out@.len() + k] == #[trigger] split_lines(nrest)[k] by {
                    assert(split_lines(rest)[k + 1] == split_lines(nrest)[k]);
                    assert(split_lines(s@)[n0 + (k + 1)] == split_lines(rest)[k + 1]);
                }
            }
        }
    }
    proof {
        assert(s@.subrange(start as int, s@.len() as int) =~= Seq::<char>::empty());
    }
    out
}

proof fn lemma_find_unique(s: Seq<char>, pat: Seq<char>, p: int)
    requires
        0 <= p,
        occurs_at(s, pat, p),
        forall|j: int| 0 <= j < p ==> !occurs_at(s, pat, j),
    ensures
        find(s, pat) == Some(p),
{
    lemma_find_from_unique(s, pat, 0, p);
}

proof fn lemma_find_from_unique(s: Seq<char>, pat: Seq<char>, from: int, p: int)
    requires
        0 <= from <= p,
        occurs_at(s, pat, p),
        forall|j: int| from <= j < p ==> !occurs_at(s, pat, j),
    ensures
        find_from(s, pat, from) == Some(p),
    decreases p - from,
{
    if from < p {
        lemma_find_from_unique(s, pat, from + 1, p);
    }
}


/// Copies `s[a..b]`.
pub fn sub_vec(s: &[char], a: usize, b: usize) -> (r: Vec<char>)
    requires
        a <= b <= s@.len(),
    ensures
        r@ == s@.subrange(a as int, b as int),
{
    let mut r: Vec<char> = Vec::new();
    let mut i = a;
    while i < b
        invariant
            a <= i <= b <= s@.len(),
            r@ == s@.subrange(a as int, i as int),
        decreases b - i,
    {
        r.push(s[i]);
        i = i + 1;
        assert(r@ =~= s@.subrange(a as int, i as int));
    }
    r
}

/// Whether `s` is exactly `t`.
pub fn eq_chars(s: &[char], t: &[char]) -> (b: bool)
    ensures
        b == (s@ == t@),
{
    if s.len() != t.len() {
        return false;
    }
    let mut i: usize = 0;
    while i < s.len()
        invariant
            i <= s@.len(),
            s@.len() == t@.len(),
            forall|j: int| 0 <= j < i ==> s@[j] == t@[j],
        decreases s@.len() - i,
    {
        if s[i] != t[i] {
            return false;
        }
        i = i + 1;
    }
    assert(s@ =~= t@);
    true
}

/// Whether `s` is exactly the text `t`.
pub fn eq_str(s: &[char], t: &str) -> (b: bool)
    ensures
        b == (s@ == t@),
{
    let tv = chars_of(t);
    eq_chars(s, tv.as_slice())
}

/// Whether `s` ends with `pat`.
pub open spec fn ends_with(s: Seq<char>, pat: Seq<char>) -> bool {
    pat.len() <= s.len() && occurs_at(s, pat, s.len() - pat.len())
}

/// Whether `s` ends with the text `pat`.
pub fn ends_with_str(s: &[char], pat: &str) -> (b: bool)
    ensures
        b == ends_with(s@, pat@),
{
    let p = chars_of(pat);
    if p.len() > s.len() {
        return false;
    }
    occurs_at_exec(s, p.as_slice(), s.len() - p.len())
}

/// The pieces of `s` between occurrences of a non-empty separator.
pub open spec fn split(s: Seq<char>, sep: Seq<char>) -> Seq<Seq<char>>
    decreases s.len(),
{
    if sep.len() == 0 {
        seq![s]
    } else {
        proof {
            lemma_find(s, sep);
        }
        match find(s, sep) {
            Some(p) => seq![s.subrange(0, p)] + split(s.subrange(p + sep.len(), s.len() as int), sep),
            None => seq![s],
        }
    }
}

/// The pieces of `s` between occurrences of `sep`.
pub fn split_exec(s: &[char], sep: &[char]) -> (r: Vec<Vec<char>>)
    ensures
        r@.len() == split(s@, sep@).len(),
        forall|k: int| 0 <= k < r@.len() ==> #[trigger] r@[k]@ == split(s@, sep@)[k],
{
    let mut out: Vec<Vec<char>> = Vec::new();
    if sep.len() == 0 {
        out.push(to_vec(s));
        return out;
    }
    let mut start: usize = 0;
    assert(s@.subrange(0, s@.len() as int) =~= s@);
    loop
        invariant
            start <= s@.len(),
            sep@.len() > 0,
            out@.len() + split(s@.subrange(start as int, s@.len() as int), sep@).len() == split(
                s@,
                sep@,
            ).len(),
            forall|k: int| 0 <= k < out@.len() ==> #[trigger] out@[k]@ == split(s@, sep@)[k],
            forall|k: int|
                0 <= k < split(s@.subrange(start as int, s@.len() as int), sep@).len() ==> split(
                    s@,
                    sep@,
                )[out@.len() + k] == #[trigger] split(s@.subrange(start as int, s@.len() as int), sep@)[k],
        decreases s@.len() - start,
    {
        let ghost rest = s@.subrange(start as int, s@.len() as int);
        let ghost n0 = out@.len();
        let f = find_from_exec(s, sep, start);
        proof {
            lemma_find_from(s@, sep@, start as int);
            lemma_find(rest, sep@);
        }
        match f {
            Some(p) => {
                proof {
                    assert forall|j: int| 0 <= j < p - start implies !occurs_at(rest, sep@, j) by {
                        assert(!occurs_at(s@, sep@, j + start));
                        if j + sep@.len() <= rest.len() {
                            assert(rest.subrange(j, j + sep@.len()) =~= s@.subrange(
                                j + start,
                                j + start + sep@.len(),
                            ));
                        }
                    }
                    assert(rest.subrange(p - start, p - start + sep@.len()) =~= s@.subrange(
                        p as int,
                        p + sep@.len(),
                    ));
                    lemma_find_unique(rest, sep@, (p - start) as int);
                    assert(rest.subrange(0, p - start) =~= s@.subrange(start as int, p as int));
                    assert(rest.subrange(p - start + sep@.len(), rest.len() as int) =~= s@.subrange(
                        p + sep@.len(),
                        s@.len() as int,
                    ));
                }
                assert(occurs_at(s@, sep@, p as int));
                assert(s@.len() == s.len() && sep@.len() == sep.len());
                let piece = sub_vec(s, start, p);
                out.push(piece);
                let next = p + sep.len();
                proof {
                    let nrest = s@.subrange(next as int, s@.len() as int);
                    assert(split(s@, sep@)[n0 as int] == split(rest, sep@)[0]);
                    assert forall|k: int| 0 <= k < split(nrest, sep@).len() implies split(
                        s@,
                        sep@,
                    )[out@.len() + k] == #[trigger] split(nrest, sep@)[k] by {
                        assert(split(rest, sep@)[k + 1] == split(nrest, sep@)[k]);
                        assert(split(s@, sep@)[n0 + (k + 1)] == split(rest, sep@)[k + 1]);
                    }
                }
                start = next;
            },
            None => {
                proof {
                    assert forall|j: int| 0 <= j implies !occurs_at(rest, sep@, j) by {
                        if j + sep@.len() <= rest.len() {
                            assert(!occurs_at(s@, sep@, j + start));
                            assert(rest.subrange(j, j + sep@.len()) =~= s@.subrange(
                                j + start,
                                j + start + sep@.len(),
                            ));
                        }
                    }
                    assert(split(s@, sep@)[n0 as int] == split(rest, sep@)[0]);
                }
                let piece = sub_vec(s, start, s.len());
                out.push(piece);
                return out;
            },
        }
    }
}

/// The decimal digit for `d < 10`.
pub open spec fn digit_char(d: nat) -> char {
    if d == 0 {
        '0'
    } else if d == 1 {
        '1'
    } else if d == 2 {
        '2'
    } else if d == 3 {
        '3'
    } else if d == 4 {
        '4'
    } else if d == 5 {
        '5'
    } else if d == 6 {
        '6'
    } else if d == 7 {
        '7'
    } else if d == 8 {
        '8'
    } else {
        '9'
    }
}

/// The decimal representation of `n`, without leading zeros.
pub open spec fn nat_text(n: nat) -> Seq<char>
    decreases n,
{
    if n < 10 {
        seq![digit_char(n)]
    } else {
        nat_text(n / 10) + seq![digit_char(n % 10)]
    }
}

/// The decimal digit for `d < 10`.
pub fn digit_char_exec(d: u128) -> (c: char)
    requires
        d < 10,
    ensures
        c == digit_char(d as nat),
{
    if d == 0 {
        '0'
    } else if d == 1 {
        '1'
    } else if d == 2 {
        '2'
    } else if d == 3 {
        '3'
    } else if d == 4 {
        '4'
    } else if d == 5 {
        '5'
    } else if d == 6 {
        '6'
    } else if d == 7 {
        '7'
    } else if d == 8 {
        '8'
    } else {
        '9'
    }
}

/// Appends the decimal representation of `n` to `out`.
pub fn push_nat(out: &mut Vec<char>, n: u128)
    ensures
        final(out)@ == old(out)@ + nat_text(n as nat),
    decreases n,
{
    if n < 10 {
        out.push(digit_char_exec(n));
        assert(nat_text(n as nat) =~= seq![digit_char(n as nat)]);
    } else {
        push_nat(out, n / 10);
        out.push(digit_char_exec(n % 10));
        assert(out@ =~= old(out)@ + nat_text(n as nat));
    }
}


/// The views of a table of (pattern, replacement) pairs.
pub open spec fn pair_views(p: Seq<(&'static str, &'static str)>) -> Seq<(Seq<char>, Seq<char>)> {
    p.map_values(|x: (&'static str, &'static str)| (x.0@, x.1@))
}

/// A text in which some character of `pat` never occurs does not contain `pat`.
pub proof fn lemma_missing_char(s: Seq<char>, pat: Seq<char>, k: int)
    requires
        0 <= k < pat.len(),
        !s.contains(pat[k]),
    ensures
        !contains(s, pat),
{
    if contains(s, pat) {
        let i = choose|i: int| occurs_at(s, pat, i);
        assert(s.subrange(i, i + pat.len())[k] == pat[k]);
        assert(s[i + k] == pat[k]);
    }
}

/// An occurrence of a pattern that lacks the character `c` lies on one
/// side of `c`.
pub proof fn lemma_contains_split(a: Seq<char>, c: char, b: Seq<char>, pat: Seq<char>)
    requires
        !pat.contains(c),
        contains(a + seq![c] + b, pat),
    ensures
        contains(a, pat) || contains(b, pat),
{
    let s = a + seq![c] + b;
    let i = choose|i: int| occurs_at(s, pat, i);
    let n = pat.len() as int;
    if i + n <= a.len() {
        assert(a.subrange(i, i + n) =~= s.subrange(i, i + n));
        assert(occurs_at(a, pat, i));
    } else if i > a.len() {
        let j = i - a.len() - 1;
        assert(b.subrange(j, j + n) =~= s.subrange(i, i + n));
        assert(occurs_at(b, pat, j));
    } else {
        let k = a.len() - i;
        assert(s.subrange(i, i + n)[k] == s[a.len() as int]);
        assert(pat[k] == c);
    }
}

/// Replacing a pattern that does not occur leaves the text as it is.
pub proof fn lemma_replace_all_absent(s: Seq<char>, from: Seq<char>, to: Seq<char>)
    requires
        !contains(s, from),
    ensures
        replace_all(s, from, to) == s,
    decreases s.len(),
{
    if from.len() == 0 || s.len() < from.len() {
    } else if s.subrange(0, from.len() as int) == from {
        assert(occurs_at(s, from, 0));
    } else {
        let rest = s.subrange(1, s.len() as int);
        if contains(rest, from) {
            let i = choose|i: int| occurs_at(rest, from, i);
            assert(s.subrange(i + 1, i + 1 + from.len()) =~= rest.subrange(i, i + from.len()));
            assert(occurs_at(s, from, i + 1));
        }
        lemma_replace_all_absent(rest, from, to);
        assert(seq![s[0]] + rest =~= s);
    }
}

/// A text that starts with the pattern, the rest free of it, has the
/// pattern replaced once at the start.
pub proof fn lemma_replace_all_leading(from: Seq<char>, rest: Seq<char>, to: Seq<char>)
    requires
        from.len() > 0,
        !contains(rest, from),
    ensures
        replace_all(from + rest, from, to) == to + rest,
{
    let s = from + rest;
    assert(s.subrange(0, from.len() as int) =~= from);
    assert(s.subrange(from.len() as int, s.len() as int) =~= rest);
    lemma_replace_all_absent(rest, from, to);
}

/// Rewriting by a table in which no pattern occurs leaves the text as it is.
pub proof fn lemma_replace_each_absent(s: Seq<char>, table: Seq<(Seq<char>, Seq<char>)>)
    requires
        forall|i: int| 0 <= i < table.len() ==> !contains(s, (#[trigger] table[i]).0),
    ensures
        replace_each(s, table) == s,
    decreases table.len(),
{
    if table.len() > 0 {
        lemma_replace_each_absent(s, table.drop_last());
        lemma_replace_all_absent(s, table.last().0, table.last().1);
    }
}

/// Rewriting by a table is rewriting by its first `k` entries, then by the rest.
pub proof fn lemma_replace_each_split(s: Seq<char>, table: Seq<(Seq<char>, Seq<char>)>, k: int)
    requires
        0 <= k <= table.len(),
    ensures
        replace_each(s, table) == replace_each(replace_each(s, table.take(k)), table.skip(k)),
    decreases table.len(),
{
    if table.len() == k {
        assert(table.take(k) =~= table);
        assert(table.skip(k) =~= Seq::<(Seq<char>, Seq<char>)>::empty());
    } else {
        lemma_replace_each_split(s, table.drop_last(), k);
        assert(table.drop_last().take(k) =~= table.take(k));
        assert(table.skip(k).drop_last() =~= table.drop_last().skip(k));
        assert(table.skip(k).last() == table.last());
    }
}

/// `table` rewrites `pat` into `to`: its first entry for the pattern `pat`
/// has the replacement `to`.
pub open spec fn rewrites_to(table: Seq<(Seq<char>, Seq<char>)>, pat: Seq<char>, to: Seq<char>) -> bool {
    exists|i: int|
        0 <= i < table.len() && #[trigger] table[i] == (pat, to) && forall|j: int| 0 <= j < i ==> table[j].0 != pat
}

/// `s` after replacing, in table order, every occurrence of each pattern by its replacement.
pub open spec fn replace_each(s: Seq<char>, pairs: Seq<(Seq<char>, Seq<char>)>) -> Seq<char>
    decreases pairs.len(),
{
    if pairs.len() == 0 {
        s
    } else {
        replace_all(replace_each(s, pairs.drop_last()), pairs.last().0, pairs.last().1)
    }
}

/// Applies the replacements of a table one after the other.
pub fn replace_each_exec(s: &[char], pairs: &Vec<(&'static str, &'static str)>) -> (r: Vec<char>)
    ensures
        r@ == replace_each(s@, pair_views(pairs@)),
{
    let mut cur = to_vec(s);
    let mut i: usize = 0;
    while i < pairs.len()
        invariant
            i <= pairs@.len(),
            cur@ == replace_each(s@, pair_views(pairs@).subrange(0, i as int)),
        decreases pairs@.len() - i,
    {
        let (from, to) = pairs[i];
        cur = replace_str(cur.as_slice(), from, to);
        i = i + 1;
        assert(pair_views(pairs@).subrange(0, i as int).drop_last() =~= pair_views(pairs@).subrange(
            0,
            i - 1,
        ));
    }
    assert(pair_views(pairs@).subrange(0, pairs@.len() as int) =~= pair_views(pairs@));
    cur
}


/// The number of non-overlapping occurrences of `pat` in `s`, scanned left to right.
pub open spec fn count_matches(s: Seq<char>, pat: Seq<char>) -> nat
    decreases s.len(),
{
    if pat.len() == 0 || s.len() < pat.len() {
        0
    } else if s.subrange(0, pat.len() as int) == pat {
        1 + count_matches(s.subrange(pat.len() as int, s.len() as int), pat)
    } else {
        count_matches(s.subrange(1, s.len() as int), pat)
    }
}

/// Counts the non-overlapping occurrences of a non-empty `pat` in `s`.
pub fn count_matches_exec(s: &[char], pat: &[char]) -> (r: usize)
    requires
        pat@.len() > 0,
    ensures
        r == count_matches(s@, pat@),
{
    let mut n: usize = 0;
    let mut i: usize = 0;
    assert(s@.subrange(0, s@.len() as int) =~= s@);
    while i < s.len()
        invariant
            i <= s@.len(),
            pat@.len() > 0,
            n <= i,
            n + count_matches(s@.subrange(i as int, s@.len() as int), pat@) == count_matches(s@, pat@),
        decreases s@.len() - i,
    {
        let ghost rest = s@.subrange(i as int, s@.len() as int);
        if occurs_at_exec(s, pat, i) {
            assert(rest.subrange(0, pat@.len() as int) =~= s@.subrange(i as int, i + pat@.len()));
            assert(rest.subrange(pat@.len() as int, rest.len() as int) =~= s@.subrange(
                i + pat@.len(),
                s@.len() as int,
            ));
            n = n + 1;
            i = i + pat.len();
        } else {
            proof {
                if rest.len() >= pat@.len() {
                    assert(rest.subrange(0, pat@.len() as int) =~= s@.subrange(i as int, i + pat@.len()));
                }
            }
            assert(rest.subrange(1, rest.len() as int) =~= s@.subrange(i + 1, s@.len() as int));
            i = i + 1;
        }
    }
    assert(s@.subrange(i as int, s@.len() as int) =~= Seq::<char>::empty());
    n
}


/// The position of the last occurrence of `c` in `s`.
pub open spec fn find_last(s: Seq<char>, c: char) -> Option<int>
    decreases s.len(),
{
    if s.len() == 0 {
        None
    } else if s.last() == c {
        Some(s.len() - 1)
    } else {
        find_last(s.drop_last(), c)
    }
}

pub proof fn lemma_find_last(s: Seq<char>, c: char)
    ensures
        find_last(s, c) matches Some(i) ==> 0 <= i < s.len() && s[i] == c,
    decreases s.len(),
{
    if s.len() > 0 && s.last() != c {
        lemma_find_last(s.drop_last(), c);
    }
}

/// The position of the last occurrence of `c` in `s`.
pub fn find_last_exec(s: &[char], c: char) -> (r: Option<usize>)
    ensures
        r matches Some(i) ==> find_last(s@, c) == Some(i as int),
        r is None ==> find_last(s@, c) is None,
{
    let mut i = s.len();
    assert(s@.subrange(0, i as int) =~= s@);
    while i > 0
        invariant
            i <= s@.len(),
            find_last(s@, c) == find_last(s@.subrange(0, i as int), c),
        decreases i,
    {
        assert(s@.subrange(0, i as int).drop_last() =~= s@.subrange(0, i - 1));
        if s[i - 1] == c {
            return Some(i - 1);
        }
        i = i - 1;
    }
    None
}

/// Whether `a` comes before `b` in lexicographic order of characters.
pub open spec fn seq_less(a: Seq<char>, b: Seq<char>) -> bool
    decreases a.len(),
{
    if b.len() == 0 {
        false
    } else if a.len() == 0 {
        true
    } else if a[0] != b[0] {
        a[0] < b[0]
    } else {
        seq_less(a.drop_first(), b.drop_first())
    }
}

/// No sequence comes before itself.
pub proof fn lemma_seq_less_irreflexive(a: Seq<char>)
    ensures
        !seq_less(a, a),
    decreases a.len(),
{
    if a.len() > 0 {
        lemma_seq_less_irreflexive(a.drop_first());
    }
}

/// The order of sequences is transitive.
pub proof fn lemma_seq_less_transitive(a: Seq<char>, b: Seq<char>, c: Seq<char>)
    requires
        seq_less(a, b),
        seq_less(b, c),
    ensures
        seq_less(a, c),
    decreases a.len(),
{
    if a.len() > 0 && a[0] == b[0] && b[0] == c[0] {
        lemma_seq_less_transitive(a.drop_first(), b.drop_first(), c.drop_first());
    }
}

/// Of two different sequences, one comes before the other.
pub proof fn lemma_seq_less_total(a: Seq<char>, b: Seq<char>)
    requires
        a != b,
    ensures
        seq_less(a, b) || seq_less(b, a),
    decreases a.len(),
{
    if a.len() > 0 && b.len() > 0 && a[0] == b[0] {
        assert(a.drop_first() != b.drop_first()) by {
            if a.drop_first() == b.drop_first() {
                assert(a =~= seq![a[0]] + a.drop_first());
                assert(b =~= seq![b[0]] + b.drop_first());
            }
        }
        lemma_seq_less_total(a.drop_first(), b.drop_first());
    } else if a.len() == 0 && b.len() == 0 {
        assert(a =~= b);
    }
}

/// Whether `a` comes before `b` in lexicographic order of characters.
pub fn seq_less_exec(a: &[char], b: &[char]) -> (r: bool)
    ensures
        r == seq_less(a@, b@),
{
    let mut i: usize = 0;
    assert(a@.subrange(0, a@.len() as int) =~= a@);
    assert(b@.subrange(0, b@.len() as int) =~= b@);
    while i < a.len() && i < b.len() && a[i] == b[i]
        invariant
            i <= a@.len(),
            i <= b@.len(),
            seq_less(a@, b@) == seq_less(a@.subrange(i as int, a@.len() as int), b@.subrange(i as int, b@.len() as int)),
        decreases a@.len() - i,
    {
        let ghost sa = a@.subrange(i as int, a@.len() as int);
        let ghost sb = b@.subrange(i as int, b@.len() as int);
        assert(sa.drop_first() =~= a@.subrange(i + 1, a@.len() as int));
        assert(sb.drop_first() =~= b@.subrange(i + 1, b@.len() as int));
        i = i + 1;
    }
    if i == b.len() {
        false
    } else if i == a.len() {
        true
    } else {
        a[i] < b[i]
    }
}

} // verus!
