//! Character sequences: the searching, cutting and joining that the rest of
//! the library is stated over.
//!
//! Every function here has a mathematical counterpart on `Seq<char>`; the
//! executable functions work on `&str` and promise exactly that counterpart.
//! Positions count characters, never bytes.

use vstd::prelude::*;

verus! {

/// What an optional string holds.
pub open spec fn opt_view(o: Option<String>) -> Option<Seq<char>> {
    match o {
        Some(s) => Some(s@),
        None => None,
    }
}

/// `pat` stands in `s` at position `at`.
pub open spec fn occurs_at(s: Seq<char>, pat: Seq<char>, at: int) -> bool {
    &&& 0 <= at
    &&& at + pat.len() <= s.len()
    &&& s.subrange(at, at + pat.len()) =~= pat
}

/// `pat` stands somewhere in `s`.
pub open spec fn contains(s: Seq<char>, pat: Seq<char>) -> bool {
    exists|at: int| occurs_at(s, pat, at)
}

/// `s` begins with `pat`.
pub open spec fn starts_with(s: Seq<char>, pat: Seq<char>) -> bool {
    occurs_at(s, pat, 0)
}

/// `s` ends with `pat`.
pub open spec fn ends_with(s: Seq<char>, pat: Seq<char>) -> bool {
    occurs_at(s, pat, s.len() - pat.len())
}

/// `pat` stands in `s` at `at` and nowhere before.
pub open spec fn is_first_occurrence(s: Seq<char>, pat: Seq<char>, at: int) -> bool {
    &&& occurs_at(s, pat, at)
    &&& forall|j: int| 0 <= j < at ==> !occurs_at(s, pat, j)
}

/// The leftmost position at which `pat` stands in `s`, if there is one.
pub open spec fn first_occurrence(s: Seq<char>, pat: Seq<char>) -> Option<int> {
    if contains(s, pat) {
        Some(choose|at: int| is_first_occurrence(s, pat, at))
    } else {
        None
    }
}

/// A position that is a first occurrence is the first occurrence.
pub proof fn lemma_first_occurrence_is(s: Seq<char>, pat: Seq<char>, at: int)
    requires
        is_first_occurrence(s, pat, at),
    ensures
        first_occurrence(s, pat) == Some(at),
{
    let chosen = choose|k: int| is_first_occurrence(s, pat, k);
    assert(is_first_occurrence(s, pat, chosen));
    if chosen < at {
        assert(!occurs_at(s, pat, chosen));
    }
    if at < chosen {
        assert(!occurs_at(s, pat, at));
    }
}

/// Where `pat` stands in `s`, its first occurrence exists and is leftmost.
pub proof fn lemma_first_occurrence_exists(s: Seq<char>, pat: Seq<char>)
    requires
        contains(s, pat),
    ensures
        first_occurrence(s, pat) is Some,
        is_first_occurrence(s, pat, first_occurrence(s, pat)->0),
{
    let w = choose|at: int| occurs_at(s, pat, at);
    lemma_leftmost_below(s, pat, w, w);
}

/// Induction behind `lemma_first_occurrence_exists`: an occurrence at `w`
/// with none in `[bound, w)` leaves a leftmost one.
proof fn lemma_leftmost_below(s: Seq<char>, pat: Seq<char>, w: int, bound: int)
    requires
        occurs_at(s, pat, w),
        0 <= bound <= w,
        forall|j: int| bound <= j < w ==> !occurs_at(s, pat, j),
    ensures
        exists|at: int| is_first_occurrence(s, pat, at),
    decreases bound,
{
    if bound == 0 {
        assert(is_first_occurrence(s, pat, w));
    } else if occurs_at(s, pat, bound - 1) {
        lemma_leftmost_below(s, pat, bound - 1, bound - 1);
    } else {
        lemma_leftmost_below(s, pat, w, bound - 1);
    }
}

/// The characters of `s`, in order.
pub fn to_chars(s: &str) -> (v: Vec<char>)
    ensures
        v@ == s@,
{
    let mut v: Vec<char> = Vec::new();
    for c in it: s.chars()
        invariant
            v@ == it.seq().take(it.index() as int),
    {
        v.push(c);
    }
    v
}

/// Whether `pat` stands in `s` at `at`.
pub fn matches_at(s: &[char], pat: &[char], at: usize) -> (r: bool)
    ensures
        r == occurs_at(s@, pat@, at as int),
{
    if pat.len() > s.len() || at > s.len() - pat.len() {
        return false;
    }
    let mut k: usize = 0;
    while k < pat.len()
        invariant
            k <= pat.len(),
            at + pat.len() <= s.len(),
            forall|j: int| 0 <= j < k ==> s@[at + j] == pat@[j],
        decreases pat.len() - k,
    {
        if s[at + k] != pat[k] {
            assert(s@.subrange(at as int, at + pat.len())[k as int] != pat@[k as int]);
            return false;
        }
        k += 1;
    }
    true
}

/// Whether two runs of characters are the same.
pub fn same_chars(a: &[char], b: &[char]) -> (r: bool)
    ensures
        r == (a@ =~= b@),
{
    if a.len() != b.len() {
        return false;
    }
    assert(a@.subrange(0, a@.len() as int) =~= a@);
    matches_at(a, b, 0)
}

/// Whether two strings hold the same characters.
pub fn same_str(a: &str, b: &str) -> (r: bool)
    ensures
        r == (a@ =~= b@),
{
    let x = to_chars(a);
    let y = to_chars(b);
    same_chars(x.as_slice(), y.as_slice())
}

/// The leftmost position at which `pat` stands in `s`.
pub fn find_chars(s: &[char], pat: &[char]) -> (r: Option<usize>)
    ensures
        match r {
            Some(at) => first_occurrence(s@, pat@) == Some(at as int),
            None => first_occurrence(s@, pat@) is None,
        },
{
    if pat.len() > s.len() {
        return None;
    }
    let last: usize = s.len() - pat.len();
    let mut at: usize = 0;
    while at <= last
        invariant
            last == s.len() - pat.len(),
            at <= last + 1,
            forall|j: int| 0 <= j < at ==> !occurs_at(s@, pat@, j),
        decreases last + 1 - at,
    {
        if matches_at(s, pat, at) {
            proof {
                lemma_first_occurrence_is(s@, pat@, at as int);
            }
            return Some(at);
        }
        at += 1;
    }
    None
}

/// The leftmost position at which `pat` stands in `s`.
pub fn find_str(s: &str, pat: &str) -> (r: Option<usize>)
    ensures
        match r {
            Some(at) => first_occurrence(s@, pat@) == Some(at as int),
            None => first_occurrence(s@, pat@) is None,
        },
{
    let sv = to_chars(s);
    let pv = to_chars(pat);
    find_chars(sv.as_slice(), pv.as_slice())
}

/// Whether `pat` stands somewhere in `s`.
pub fn contains_str(s: &str, pat: &str) -> (r: bool)
    ensures
        r == contains(s@, pat@),
{
    find_str(s, pat).is_some()
}

/// Whether `s` begins with `pat`.
pub fn starts_with_str(s: &str, pat: &str) -> (r: bool)
    ensures
        r == starts_with(s@, pat@),
{
    let sv = to_chars(s);
    let pv = to_chars(pat);
    matches_at(sv.as_slice(), pv.as_slice(), 0)
}

/// `s` without the run of `c` at its end.
pub open spec fn trim_end_char(s: Seq<char>, c: char) -> Seq<char>
    decreases s.len(),
{
    if s.len() > 0 && s.last() == c {
        trim_end_char(s.drop_last(), c)
    } else {
        s
    }
}

/// `s` with `suffix` removed from its end as often as it stands there.
/// An empty `suffix` removes nothing.
pub open spec fn strip_suffix_all(s: Seq<char>, suffix: Seq<char>) -> Seq<char>
    decreases s.len(),
{
    if suffix.len() > 0 && ends_with(s, suffix) {
        strip_suffix_all(s.take(s.len() - suffix.len()), suffix)
    } else {
        s
    }
}

/// `s` with `prefix` removed from its start as often as it stands there.
/// An empty `prefix` removes nothing.
pub open spec fn strip_prefix_all(s: Seq<char>, prefix: Seq<char>) -> Seq<char>
    decreases s.len(),
{
    if prefix.len() > 0 && starts_with(s, prefix) {
        strip_prefix_all(s.skip(prefix.len() as int), prefix)
    } else {
        s
    }
}

/// What is left when a prefix is removed as often as it stands no longer
/// begins with it.
pub proof fn lemma_strip_prefix_all_done(s: Seq<char>, prefix: Seq<char>)
    requires
        prefix.len() > 0,
    ensures
        !starts_with(strip_prefix_all(s, prefix), prefix),
    decreases s.len(),
{
    if starts_with(s, prefix) {
        lemma_strip_prefix_all_done(s.skip(prefix.len() as int), prefix);
    }
}

/// How many leading characters of `s` are left once the run of `c` at its
/// end is gone.
pub fn trim_end_char_len(s: &[char], c: char) -> (n: usize)
    ensures
        n <= s.len(),
        s@.take(n as int) == trim_end_char(s@, c),
{
    let mut n: usize = s.len();
    assert(s@.take(n as int) =~= s@);
    while n > 0 && s[n - 1] == c
        invariant
            n <= s.len(),
            trim_end_char(s@, c) == trim_end_char(s@.take(n as int), c),
        decreases n,
    {
        assert(s@.take(n as int).drop_last() =~= s@.take(n - 1));
        n -= 1;
    }
    n
}

/// `s` without the run of `c` at its end.
pub fn trim_end_char_str(s: &str, c: char) -> (r: &str)
    ensures
        r@ == trim_end_char(s@, c),
{
    let v = to_chars(s);
    let n = trim_end_char_len(v.as_slice(), c);
    assert(s@.take(n as int) =~= s@.subrange(0, n as int));
    s.substring_char(0, n)
}

/// How many leading characters of `s` are left once `suffix` is removed from
/// its end as often as it stands there.
pub fn strip_suffix_all_len(s: &[char], suffix: &[char]) -> (n: usize)
    ensures
        n <= s.len(),
        s@.take(n as int) == strip_suffix_all(s@, suffix@),
{
    let m: usize = suffix.len();
    let mut n: usize = s.len();
    assert(s@.take(n as int) =~= s@);
    if m == 0 {
        return n;
    }
    while n >= m && matches_at(s, suffix, n - m)
        invariant
            m == suffix.len(),
            m > 0,
            n <= s.len(),
            strip_suffix_all(s@, suffix@) == strip_suffix_all(s@.take(n as int), suffix@),
        decreases n,
    {
        proof {
            let t = s@.take(n as int);
            assert(t.subrange(n - m, n as int) =~= s@.subrange(n - m, n as int));
            assert(ends_with(t, suffix@));
            assert(t.take(n - m) =~= s@.take(n - m));
        }
        n -= m;
    }
    proof {
        let t = s@.take(n as int);
        if n >= m {
            assert(t.subrange(n - m, n as int) =~= s@.subrange(n - m, n as int));
        }
        assert(!ends_with(t, suffix@));
    }
    n
}

/// `s` with `suffix` removed from its end as often as it stands there.
pub fn strip_suffix_all_str<'a>(s: &'a str, suffix: &str) -> (r: &'a str)
    ensures
        r@ == strip_suffix_all(s@, suffix@),
{
    let v = to_chars(s);
    let p = to_chars(suffix);
    let n = strip_suffix_all_len(v.as_slice(), p.as_slice());
    assert(s@.take(n as int) =~= s@.subrange(0, n as int));
    s.substring_char(0, n)
}

/// How many leading characters of `s` go when `prefix` is removed from its
/// start as often as it stands there.
pub fn strip_prefix_all_len(s: &[char], prefix: &[char]) -> (n: usize)
    ensures
        n <= s.len(),
        s@.skip(n as int) == strip_prefix_all(s@, prefix@),
{
    let m: usize = prefix.len();
    let mut n: usize = 0;
    assert(s@.skip(0) =~= s@);
    if m == 0 {
        return n;
    }
    while s.len() - n >= m && matches_at(s, prefix, n)
        invariant
            m == prefix.len(),
            m > 0,
            n <= s.len(),
            strip_prefix_all(s@, prefix@) == strip_prefix_all(s@.skip(n as int), prefix@),
        decreases s.len() - n,
    {
        proof {
            let t = s@.skip(n as int);
            assert(t.subrange(0, m as int) =~= s@.subrange(n as int, n + m));
            assert(starts_with(t, prefix@));
            assert(t.skip(m as int) =~= s@.skip(n + m));
        }
        n += m;
    }
    proof {
        let t = s@.skip(n as int);
        if s.len() - n >= m {
            assert(t.subrange(0, m as int) =~= s@.subrange(n as int, n + m));
        }
        assert(!starts_with(t, prefix@));
    }
    n
}

/// `s` with `prefix` removed from its start as often as it stands there.
pub fn strip_prefix_all_str<'a>(s: &'a str, prefix: &str) -> (r: &'a str)
    ensures
        r@ == strip_prefix_all(s@, prefix@),
{
    let v = to_chars(s);
    let p = to_chars(prefix);
    let n = strip_prefix_all_len(v.as_slice(), p.as_slice());
    assert(s@.skip(n as int) =~= s@.subrange(n as int, s@.len() as int));
    s.substring_char(n, v.len())
}

/// The pieces of `s` between the occurrences of `sep`, in order. There is
/// one piece more than there are occurrences, so there is always one; a
/// piece is empty where `s` starts or ends with `sep` or holds two in a row.
/// Read from the end: a last character that is `sep` opens a new, empty
/// piece, any other character grows the last piece.
pub open spec fn split(s: Seq<char>, sep: char) -> Seq<Seq<char>>
    decreases s.len(),
{
    if s.len() == 0 {
        seq![Seq::<char>::empty()]
    } else {
        let before = split(s.drop_last(), sep);
        if s.last() == sep {
            before.push(Seq::<char>::empty())
        } else {
            before.drop_last().push(before.last().push(s.last()))
        }
    }
}

/// The pieces in order, with `sep` between each two.
pub open spec fn join(parts: Seq<Seq<char>>, sep: Seq<char>) -> Seq<char>
    decreases parts.len(),
{
    if parts.len() == 0 {
        Seq::<char>::empty()
    } else if parts.len() == 1 {
        parts[0]
    } else {
        join(parts.drop_last(), sep) + sep + parts.last()
    }
}

/// What a list of strings holds, string by string.
pub open spec fn views(v: Seq<String>) -> Seq<Seq<char>> {
    Seq::new(v.len(), |i: int| v[i]@)
}

/// Splitting always leaves at least one piece.
pub proof fn lemma_split_len(s: Seq<char>, sep: char)
    ensures
        split(s, sep).len() >= 1,
    decreases s.len(),
{
    if s.len() > 0 {
        lemma_split_len(s.drop_last(), sep);
    }
}

/// A sequence without the separator is its own single piece.
pub proof fn lemma_split_single(s: Seq<char>, sep: char)
    requires
        !s.contains(sep),
    ensures
        split(s, sep) == seq![s],
    decreases s.len(),
{
    if s.len() > 0 {
        let t = s.drop_last();
        assert forall|i: int| 0 <= i < t.len() implies t[i] != sep by {
            assert(s[i] == t[i]);
        }
        lemma_split_single(t, sep);
        assert(s[s.len() - 1] != sep);
        assert(t.push(s.last()) =~= s);
        assert(seq![t].drop_last().push(t.push(s.last())) =~= seq![s]);
    } else {
        assert(Seq::<char>::empty() =~= s);
    }
}

/// Splitting `a`, a separator and `b` gives the pieces of `a`, then those of `b`.
pub proof fn lemma_split_concat(a: Seq<char>, b: Seq<char>, sep: char)
    ensures
        split(a + seq![sep] + b, sep) == split(a, sep) + split(b, sep),
    decreases b.len(),
{
    let whole = a + seq![sep] + b;
    lemma_split_len(a, sep);
    if b.len() == 0 {
        assert(whole.drop_last() =~= a);
        assert(split(a, sep).push(Seq::<char>::empty()) =~= split(a, sep) + split(b, sep));
    } else {
        let b0 = b.drop_last();
        lemma_split_concat(a, b0, sep);
        lemma_split_len(b0, sep);
        assert(whole.drop_last() =~= a + seq![sep] + b0);
        assert(whole.last() == b.last());
        let left = split(a, sep);
        let right = split(b0, sep);
        if b.last() == sep {
            assert((left + right).push(Seq::<char>::empty()) =~= left + right.push(
                Seq::<char>::empty(),
            ));
        } else {
            assert((left + right).drop_last().push((left + right).last().push(b.last())) =~= left
                + right.drop_last().push(right.last().push(b.last())));
        }
    }
}

/// Joining the pieces with the separator gives the sequence back.
pub proof fn lemma_join_split(s: Seq<char>, sep: char)
    ensures
        join(split(s, sep), seq![sep]) == s,
    decreases s.len(),
{
    if s.len() == 0 {
        assert(join(seq![Seq::<char>::empty()], seq![sep]) =~= s);
    } else {
        let t = s.drop_last();
        lemma_join_split(t, sep);
        lemma_split_len(t, sep);
        let before = split(t, sep);
        if s.last() == sep {
            let now = before.push(Seq::<char>::empty());
            assert(now.drop_last() =~= before);
            assert(join(now, seq![sep]) =~= t + seq![sep]);
            assert(t + seq![sep] =~= s);
        } else {
            let grown = before.last().push(s.last());
            let now = before.drop_last().push(grown);
            assert(now.drop_last() =~= before.drop_last());
            if before.len() == 1 {
                assert(join(now, seq![sep]) =~= t.push(s.last()));
            } else {
                assert(join(now, seq![sep]) =~= join(before.drop_last(), seq![sep]) + seq![sep]
                    + grown);
                assert(join(before, seq![sep]) =~= join(before.drop_last(), seq![sep]) + seq![sep]
                    + before.last());
                assert(join(now, seq![sep]) =~= t.push(s.last()));
            }
            assert(t.push(s.last()) =~= s);
        }
    }
}

/// The pieces of `s` between the occurrences of `sep`, in order.
pub fn split_str(s: &str, sep: char) -> (r: Vec<String>)
    ensures
        views(r@) == split(s@, sep),
{
    let chars = to_chars(s);
    let n: usize = chars.len();
    let mut out: Vec<String> = Vec::new();
    let mut start: usize = 0;
    let mut pos: usize = 0;
    assert(s@.subrange(0, 0) =~= Seq::<char>::empty());
    assert(views(out@).push(s@.subrange(0, 0)) =~= split(s@.take(0), sep));
    while pos < n
        invariant
            n == s@.len(),
            chars@ == s@,
            start <= pos <= n,
            split(s@.take(pos as int), sep) == views(out@).push(
                s@.subrange(start as int, pos as int),
            ),
        decreases n - pos,
    {
        let ghost before = split(s@.take(pos as int), sep);
        let ghost old_out = out@;
        assert(s@.take(pos + 1).drop_last() =~= s@.take(pos as int));
        if chars[pos] == sep {
            let piece = s.substring_char(start, pos);
            out.push(piece.to_owned());
            assert(views(out@) =~= views(old_out).push(s@.subrange(start as int, pos as int)));
            start = pos + 1;
            assert(s@.subrange(start as int, pos + 1) =~= Seq::<char>::empty());
        } else {
            assert(before.drop_last() =~= views(out@));
            assert(before.last().push(s@[pos as int]) =~= s@.subrange(start as int, pos + 1));
        }
        pos += 1;
    }
    let ghost old_out = out@;
    let piece = s.substring_char(start, n);
    out.push(piece.to_owned());
    assert(views(out@) =~= views(old_out).push(s@.subrange(start as int, n as int)));
    assert(s@.take(n as int) =~= s@);
    out
}

/// The strings in order, with `sep` between each two.
pub fn join_strs(parts: &[String], sep: &str) -> (r: String)
    ensures
        r@ == join(views(parts@), sep@),
{
    let mut out = String::new();
    let mut i: usize = 0;
    assert(views(parts@).take(0) =~= Seq::<Seq<char>>::empty());
    while i < parts.len()
        invariant
            i <= parts.len(),
            out@ == join(views(parts@).take(i as int), sep@),
        decreases parts.len() - i,
    {
        let ghost prev = out@;
        if i > 0 {
            out.append(sep);
        }
        out.append(parts[i].as_str());
        proof {
            let now = views(parts@).take(i + 1);
            assert(now.drop_last() =~= views(parts@).take(i as int));
            assert(now.last() == parts@[i as int]@);
            if i == 0 {
                assert(out@ =~= now[0]);
            }
        }
        i += 1;
    }
    assert(views(parts@).take(i as int) =~= views(parts@));
    out
}

/// White space: the characters that Unicode gives the property White_Space.
pub open spec fn is_space(c: char) -> bool {
    let n = c as u32;
    ||| 0x09 <= n <= 0x0d
    ||| n == 0x20
    ||| n == 0x85
    ||| n == 0xa0
    ||| n == 0x1680
    ||| 0x2000 <= n <= 0x200a
    ||| n == 0x2028
    ||| n == 0x2029
    ||| n == 0x202f
    ||| n == 0x205f
    ||| n == 0x3000
}

/// `s` without the white space at its start.
pub open spec fn trim_start(s: Seq<char>) -> Seq<char>
    decreases s.len(),
{
    if s.len() > 0 && is_space(s.first()) {
        trim_start(s.drop_first())
    } else {
        s
    }
}

/// `s` without the white space at its end.
pub open spec fn trim_end(s: Seq<char>) -> Seq<char>
    decreases s.len(),
{
    if s.len() > 0 && is_space(s.last()) {
        trim_end(s.drop_last())
    } else {
        s
    }
}

/// `s` without the white space at either end.
pub open spec fn trim(s: Seq<char>) -> Seq<char> {
    trim_end(trim_start(s))
}

/// Whether `c` is white space.
pub fn is_space_char(c: char) -> (r: bool)
    ensures
        r == is_space(c),
{
    let n: u32 = c as u32;
    (0x09 <= n && n <= 0x0d) || n == 0x20 || n == 0x85 || n == 0xa0 || n == 0x1680 || (0x2000 <= n
        && n <= 0x200a) || n == 0x2028 || n == 0x2029 || n == 0x202f || n == 0x205f || n == 0x3000
}

/// Where `s` starts and ends once the white space at either end is gone.
pub fn trim_bounds(s: &[char]) -> (r: (usize, usize))
    ensures
        r.0 <= r.1 <= s.len(),
        s@.subrange(r.0 as int, r.1 as int) == trim(s@),
{
    let n: usize = s.len();
    let mut a: usize = 0;
    assert(s@.skip(0) =~= s@);
    while a < n && is_space_char(s[a])
        invariant
            n == s.len(),
            a <= n,
            trim_start(s@) == trim_start(s@.skip(a as int)),
        decreases n - a,
    {
        assert(s@.skip(a as int).drop_first() =~= s@.skip(a + 1));
        a += 1;
    }
    let mut b: usize = n;
    assert(s@.skip(a as int) =~= s@.subrange(a as int, n as int));
    while b > a && is_space_char(s[b - 1])
        invariant
            a <= b <= n,
            n == s.len(),
            trim_end(s@.skip(a as int)) == trim_end(s@.subrange(a as int, b as int)),
        decreases b,
    {
        assert(s@.subrange(a as int, b as int).drop_last() =~= s@.subrange(a as int, b - 1));
        b -= 1;
    }
    (a, b)
}

} // verus!
