//! Character-sequence utilities: searching, splitting on a separator,
//! joining lines, and whitespace trimming, with full functional
//! specifications. All higher-level source transformations are built on
//! these.
use vstd::prelude::*;

verus! {

/// A blank character for the purpose of indentation and trimming. A
/// carriage return counts as blank, so sources with CRLF line endings
/// read the same as ones with bare newlines.
pub open spec fn is_blank(c: char) -> bool {
    c == ' ' || c == '\t' || c == '\r'
}

/// Number of leading blank characters of `s`.
pub open spec fn leading_blanks(s: Seq<char>) -> nat
    decreases s.len(),
{
    if s.len() > 0 && is_blank(s[0]) {
        (1 + leading_blanks(s.skip(1))) as nat
    } else {
        0
    }
}

/// `s` with its leading blanks removed.
pub open spec fn trim_start_spec(s: Seq<char>) -> Seq<char> {
    s.skip(leading_blanks(s) as int)
}

/// Number of trailing blank characters of `s`.
pub open spec fn trailing_blanks(s: Seq<char>) -> nat
    decreases s.len(),
{
    if s.len() > 0 && is_blank(s[s.len() - 1]) {
        (1 + trailing_blanks(s.drop_last())) as nat
    } else {
        0
    }
}

/// `s` with its trailing blanks removed.
pub open spec fn trim_end_spec(s: Seq<char>) -> Seq<char> {
    s.take(s.len() - trailing_blanks(s))
}

/// `s` with leading and trailing blanks removed.
pub open spec fn trim_spec(s: Seq<char>) -> Seq<char> {
    trim_end_spec(trim_start_spec(s))
}

/// All characters of `s` are blank.
pub open spec fn all_blank(s: Seq<char>) -> bool {
    forall|j: int| 0 <= j < s.len() ==> is_blank(s[j])
}

/// The pattern `p` occurs in `s` at position `i`.
pub open spec fn matches_at(s: Seq<char>, i: int, p: Seq<char>) -> bool {
    0 <= i && i + p.len() <= s.len() && s.subrange(i, i + p.len()) == p
}

/// `p` is a prefix of `s`.
pub open spec fn starts_with(s: Seq<char>, p: Seq<char>) -> bool {
    matches_at(s, 0, p)
}

/// `p` occurs somewhere in `s`.
pub open spec fn contains_seq(s: Seq<char>, p: Seq<char>) -> bool {
    exists|i: int| matches_at(s, i, p)
}

/// Index of the first occurrence of `c` in `s`, or `s.len()` if absent.
pub open spec fn first_index_of(s: Seq<char>, c: char) -> nat
    decreases s.len(),
{
    if s.len() == 0 {
        0
    } else if s[0] == c {
        0
    } else {
        (1 + first_index_of(s.skip(1), c)) as nat
    }
}

pub proof fn lemma_first_index_of(s: Seq<char>, c: char)
    ensures
        first_index_of(s, c) <= s.len(),
        first_index_of(s, c) < s.len() ==> s[first_index_of(s, c) as int] == c,
        forall|j: int| 0 <= j < first_index_of(s, c) ==> s[j] != c,
    decreases s.len(),
{
    if s.len() > 0 && s[0] != c {
        lemma_first_index_of(s.skip(1), c);
        assert forall|j: int| 0 <= j < first_index_of(s, c) implies s[j] != c by {
            if j > 0 {
                assert(s.skip(1)[j - 1] == s[j]);
            }
        }
    }
}

/// If no character before `k` is `c`, and `k` is either the end or holds
/// `c`, then `k` is the first index of `c`.
pub proof fn lemma_first_index_of_is(s: Seq<char>, c: char, k: int)
    requires
        0 <= k <= s.len(),
        forall|j: int| 0 <= j < k ==> s[j] != c,
        k < s.len() ==> s[k] == c,
    ensures
        first_index_of(s, c) == k,
    decreases s.len(),
{
    if s.len() > 0 && s[0] != c {
        assert forall|j: int| 0 <= j < k - 1 implies s.skip(1)[j] != c by {
            assert(s.skip(1)[j] == s[j + 1]);
        }
        lemma_first_index_of_is(s.skip(1), c, k - 1);
    }
}

/// `s` split on separator `c`: the (possibly empty) stretches between
/// occurrences of `c`, in order. A string without the separator is a
/// single part.
pub open spec fn split_on(s: Seq<char>, c: char) -> Seq<Seq<char>>
    decreases s.len(),
{
    let i = first_index_of(s, c) as int;
    if i >= s.len() {
        seq![s]
    } else {
        seq![s.take(i)] + split_on(s.skip(i + 1), c)
    }
}

pub proof fn lemma_split_on_no_sep(s: Seq<char>, c: char)
    requires
        forall|j: int| 0 <= j < s.len() ==> s[j] != c,
    ensures
        split_on(s, c) == seq![s],
{
    lemma_first_index_of_is(s, c, s.len() as int);
}

/// Splitting `a + [c] + b` where `a` is separator-free yields `a`
/// followed by the parts of `b`.
pub proof fn lemma_split_on_step(a: Seq<char>, b: Seq<char>, c: char)
    requires
        forall|j: int| 0 <= j < a.len() ==> a[j] != c,
    ensures
        split_on(a + seq![c] + b, c) == seq![a] + split_on(b, c),
{
    let s = a + seq![c] + b;
    assert(s[a.len() as int] == c);
    lemma_first_index_of_is(s, c, a.len() as int);
    assert(s.take(a.len() as int) =~= a);
    assert(s.skip(a.len() as int + 1) =~= b);
}

/// Every part produced by `split_on` is separator-free.
pub proof fn lemma_split_on_parts_free(s: Seq<char>, c: char)
    ensures
        forall|k: int, j: int|
            0 <= k < split_on(s, c).len() && 0 <= j < split_on(s, c)[k].len()
                ==> split_on(s, c)[k][j] != c,
    decreases s.len(),
{
    lemma_first_index_of(s, c);
    let i = first_index_of(s, c) as int;
    if i < s.len() {
        lemma_split_on_parts_free(s.skip(i + 1), c);
        assert forall|k: int, j: int|
            0 <= k < split_on(s, c).len() && 0 <= j < split_on(s, c)[k].len()
            implies split_on(s, c)[k][j] != c by {
            if k == 0 {
                assert(split_on(s, c)[0] == s.take(i));
                assert(s.take(i)[j] == s[j]);
            } else {
                assert(split_on(s, c)[k] == split_on(s.skip(i + 1), c)[k - 1]);
            }
        }
    } else {
        assert forall|k: int, j: int|
            0 <= k < split_on(s, c).len() && 0 <= j < split_on(s, c)[k].len()
            implies split_on(s, c)[k][j] != c by {
            assert(split_on(s, c)[k] == s);
        }
    }
}

/// `split_on` always yields at least one part.
pub proof fn lemma_split_on_len(s: Seq<char>, c: char)
    ensures
        split_on(s, c).len() >= 1,
    decreases s.len(),
{
    lemma_first_index_of(s, c);
}

/// The lines of a text: split on `'\n'`, with a final newline not
/// opening an extra empty line.
pub open spec fn lines_spec(s: Seq<char>) -> Seq<Seq<char>> {
    if s.len() == 0 {
        seq![]
    } else if s[s.len() - 1] == '\n' {
        split_on(s.take(s.len() - 1), '\n')
    } else {
        split_on(s, '\n')
    }
}

/// The inverse of `lines_spec`: each line followed by a newline.
pub open spec fn unlines(ls: Seq<Seq<char>>) -> Seq<char>
    decreases ls.len(),
{
    if ls.len() == 0 {
        seq![]
    } else {
        ls[0] + seq!['\n'] + unlines(ls.skip(1))
    }
}

pub proof fn lemma_unlines_push(ls: Seq<Seq<char>>, l: Seq<char>)
    ensures
        unlines(ls.push(l)) == unlines(ls) + l + seq!['\n'],
    decreases ls.len(),
{
    let p = ls.push(l);
    if ls.len() == 0 {
        assert(p.skip(1) =~= Seq::<Seq<char>>::empty());
        assert(unlines(Seq::<Seq<char>>::empty()) == Seq::<char>::empty());
        assert(unlines(p.skip(1)) == Seq::<char>::empty());
        assert(p[0] == l);
        assert(unlines(p) =~= unlines(ls) + l + seq!['\n']);
    } else {
        assert(p.skip(1) =~= ls.skip(1).push(l));
        lemma_unlines_push(ls.skip(1), l);
        assert(unlines(p.skip(1)) == unlines(ls.skip(1)) + l + seq!['\n']);
        assert(p[0] == ls[0]);
        assert(unlines(p) =~= unlines(ls) + l + seq!['\n']);
    }
}

/// A line list is clean when no line contains a newline character.
pub open spec fn lines_clean(ls: Seq<Seq<char>>) -> bool {
    forall|k: int, j: int|
        0 <= k < ls.len() && 0 <= j < ls[k].len() ==> ls[k][j] != '\n'
}

/// Splitting joined clean lines recovers exactly the lines.
pub proof fn lemma_lines_unlines(ls: Seq<Seq<char>>)
    requires
        lines_clean(ls),
    ensures
        lines_spec(unlines(ls)) == ls,
    decreases ls.len(),
{
    if ls.len() == 0 {
    } else {
        let s = unlines(ls);
        assert(s.len() > 0);
        lemma_unlines_ends_newline(ls);
        let body = s.take(s.len() - 1);
        // body == ls[0] + '\n' + ... with the final newline removed
        lemma_split_of_unlines(ls);
        assert(lines_spec(s) == ls);
    }
}

/// The join of a nonempty line list ends with a newline.
pub proof fn lemma_unlines_ends_newline(ls: Seq<Seq<char>>)
    requires
        ls.len() > 0,
    ensures
        unlines(ls).len() > 0,
        unlines(ls)[unlines(ls).len() - 1] == '\n',
    decreases ls.len(),
{
    if ls.len() == 1 {
        assert(unlines(ls.skip(1)) =~= Seq::<char>::empty());
    } else {
        lemma_unlines_ends_newline(ls.skip(1));
    }
}

/// Splitting the join of clean lines (with its final newline removed)
/// on newlines yields the lines back.
pub proof fn lemma_split_of_unlines(ls: Seq<Seq<char>>)
    requires
        ls.len() > 0,
        lines_clean(ls),
    ensures
        split_on(unlines(ls).take(unlines(ls).len() - 1), '\n') == ls,
    decreases ls.len(),
{
    let s = unlines(ls);
    lemma_unlines_ends_newline(ls);
    let body = s.take(s.len() - 1);
    if ls.len() == 1 {
        assert(unlines(ls.skip(1)) =~= Seq::<char>::empty());
        assert(body =~= ls[0]);
        assert forall|j: int| 0 <= j < ls[0].len() implies ls[0][j] != '\n' by {}
        lemma_split_on_no_sep(ls[0], '\n');
        assert(split_on(body, '\n') =~= ls);
    } else {
        let rest = ls.skip(1);
        lemma_unlines_ends_newline(rest);
        lemma_split_of_unlines(rest);
        let rbody = unlines(rest).take(unlines(rest).len() - 1);
        assert(body =~= ls[0] + seq!['\n'] + rbody);
        assert forall|j: int| 0 <= j < ls[0].len() implies ls[0][j] != '\n' by {}
        lemma_split_on_step(ls[0], rbody, '\n');
        assert(split_on(body, '\n') =~= seq![ls[0]] + split_on(rbody, '\n'));
        assert(split_on(body, '\n') =~= ls);
    }
}

/// Joining the parts of a newline split recovers the text, plus one
/// final newline.
pub proof fn lemma_unlines_split(t: Seq<char>)
    ensures
        unlines(split_on(t, '\n')) == t + seq!['\n'],
    decreases t.len(),
{
    lemma_first_index_of(t, '\n');
    let i = first_index_of(t, '\n') as int;
    if i >= t.len() {
        assert(seq![t].skip(1) =~= Seq::<Seq<char>>::empty());
        assert(unlines(Seq::<Seq<char>>::empty()) == Seq::<char>::empty());
        assert(unlines(seq![t].skip(1)) == Seq::<char>::empty());
        assert(unlines(seq![t]) =~= t + seq!['\n']);
    } else {
        lemma_unlines_split(t.skip(i + 1));
        let rest = split_on(t.skip(i + 1), '\n');
        let whole = seq![t.take(i)] + rest;
        assert(split_on(t, '\n') == whole);
        assert(whole[0] == t.take(i));
        assert(whole.skip(1) =~= rest);
        assert(unlines(whole) == t.take(i) + seq!['\n'] + unlines(rest));
        assert(t[i] == '\n');
        assert(t.take(i) + seq!['\n'] + (t.skip(i + 1) + seq!['\n']) =~= t + seq![
            '\n',
        ]);
    }
}

/// Joining the lines of a text recovers it exactly when it ended with
/// a newline, and appends one when it did not.
pub proof fn lemma_unlines_lines(s: Seq<char>)
    requires
        s.len() > 0,
    ensures
        s[s.len() - 1] == '\n' ==> unlines(lines_spec(s)) == s,
        s[s.len() - 1] != '\n' ==> unlines(lines_spec(s)) == s + seq!['\n'],
{
    if s[s.len() - 1] == '\n' {
        lemma_unlines_split(s.take(s.len() - 1));
        assert(s.take(s.len() - 1) + seq!['\n'] =~= s);
    } else {
        lemma_unlines_split(s);
    }
}

/// The lines of any text are clean.
pub proof fn lemma_lines_spec_clean(s: Seq<char>)
    ensures
        lines_clean(lines_spec(s)),
{
    if s.len() == 0 {
    } else if s[s.len() - 1] == '\n' {
        lemma_split_on_parts_free(s.take(s.len() - 1), '\n');
    } else {
        lemma_split_on_parts_free(s, '\n');
    }
}

/// Index of the first occurrence of `p` in `s` at or after `i`, or -1.
pub open spec fn first_match_at(s: Seq<char>, p: Seq<char>, i: int) -> int
    decreases s.len() + 1 - i,
{
    if i < 0 || i + p.len() > s.len() {
        -1
    } else if matches_at(s, i, p) {
        i
    } else {
        first_match_at(s, p, i + 1)
    }
}

pub proof fn lemma_first_match_at_is(s: Seq<char>, p: Seq<char>, i: int, k: int)
    requires
        0 <= i <= k,
        forall|j: int| i <= j < k ==> !matches_at(s, j, p),
        k + p.len() <= s.len() ==> matches_at(s, k, p),
    ensures
        first_match_at(s, p, i) == if k + p.len() <= s.len() {
            k
        } else {
            -1
        },
    decreases k - i,
{
    if i + p.len() > s.len() {
    } else if i < k {
        lemma_first_match_at_is(s, p, i + 1, k);
    }
}

/// The parts with the empty ones dropped.
pub open spec fn nonempty_parts(ls: Seq<Seq<char>>) -> Seq<Seq<char>>
    decreases ls.len(),
{
    if ls.len() == 0 {
        seq![]
    } else if ls[0].len() > 0 {
        seq![ls[0]] + nonempty_parts(ls.skip(1))
    } else {
        nonempty_parts(ls.skip(1))
    }
}

/// The parts joined with single separators.
pub open spec fn join_sep(ls: Seq<Seq<char>>, sep: char) -> Seq<char>
    decreases ls.len(),
{
    if ls.len() == 0 {
        seq![]
    } else {
        ls[0] + sep_rest(ls.skip(1), sep)
    }
}

/// The remaining parts, each preceded by one separator.
pub open spec fn sep_rest(ls: Seq<Seq<char>>, sep: char) -> Seq<char>
    decreases ls.len(),
{
    if ls.len() == 0 {
        seq![]
    } else {
        seq![sep] + ls[0] + sep_rest(ls.skip(1), sep)
    }
}

/// A match in `a` is a match in `a + b`.
pub proof fn lemma_matches_concat_l(a: Seq<char>, b: Seq<char>, i: int, p: Seq<char>)
    requires
        matches_at(a, i, p),
    ensures
        matches_at(a + b, i, p),
{
    assert((a + b).subrange(i, i + p.len()) =~= a.subrange(i, i + p.len()));
}

/// A match in `b` is a match in `a + b`, shifted.
pub proof fn lemma_matches_concat_r(a: Seq<char>, b: Seq<char>, i: int, p: Seq<char>)
    requires
        matches_at(b, i, p),
    ensures
        matches_at(a + b, a.len() + i, p),
{
    assert((a + b).subrange(a.len() + i, a.len() + i + p.len()) =~= b.subrange(
        i,
        i + p.len(),
    ));
}

/// A pattern occurring in one line occurs in the joined text.
pub proof fn lemma_unlines_contains(ls: Seq<Seq<char>>, k: int, p: Seq<char>)
    requires
        0 <= k < ls.len(),
        contains_seq(ls[k], p),
    ensures
        contains_seq(unlines(ls), p),
    decreases k,
{
    if k == 0 {
        let i = choose|i: int| matches_at(ls[0], i, p);
        lemma_matches_concat_l(ls[0], seq!['\n'], i, p);
        lemma_matches_concat_l(ls[0] + seq!['\n'], unlines(ls.skip(1)), i, p);
        assert(unlines(ls) == ls[0] + seq!['\n'] + unlines(ls.skip(1)));
        assert(matches_at(unlines(ls), i, p));
    } else {
        assert(ls.skip(1)[k - 1] == ls[k]);
        lemma_unlines_contains(ls.skip(1), k - 1, p);
        let i = choose|i: int| matches_at(unlines(ls.skip(1)), i, p);
        lemma_matches_concat_r(ls[0] + seq!['\n'], unlines(ls.skip(1)), i, p);
        assert(matches_at(unlines(ls), (ls[0] + seq!['\n']).len() + i, p));
    }
}

// ---------------------------------------------------------------------
// Executable counterparts.
// ---------------------------------------------------------------------

/// The characters of `s`, as a vector.
pub fn str_to_chars(s: &str) -> (v: Vec<char>)
    ensures
        v@ == s@,
{
    let n: usize = s.unicode_len();
    let mut v: Vec<char> = Vec::new();
    let mut i: usize = 0;
    while i < n
        invariant
            0 <= i <= n,
            n == s@.len(),
            v@ == s@.take(i as int),
        decreases n - i,
    {
        v.push(s.get_char(i));
        assert(v@ =~= s@.take(i + 1));
        i += 1;
    }
    assert(v@ =~= s@);
    v
}

/// Relies on `String: FromIterator<char>`: collecting characters yields
/// the string holding exactly those characters in order.
#[verifier::external_body]
pub fn string_from_chars(v: &Vec<char>) -> (r: String)
    ensures
        r@ == v@,
{
    v.iter().collect()
}

/// Append all characters of `s` to `out`.
pub fn push_seq(out: &mut Vec<char>, s: &Vec<char>)
    ensures
        final(out)@ == old(out)@ + s@,
{
    let mut i: usize = 0;
    while i < s.len()
        invariant
            0 <= i <= s@.len(),
            out@ == old(out)@ + s@.take(i as int),
        decreases s@.len() - i,
    {
        out.push(s[i]);
        assert(out@ =~= old(out)@ + s@.take(i + 1));
        i += 1;
    }
    assert(out@ =~= old(out)@ + s@);
}

/// Append the characters of the string slice `s` to `out`.
pub fn push_str_chars(out: &mut Vec<char>, s: &str)
    ensures
        final(out)@ == old(out)@ + s@,
{
    let v = str_to_chars(s);
    push_seq(out, &v);
}

/// Whether the two character vectors hold the same characters.
pub fn vec_eq(a: &Vec<char>, b: &Vec<char>) -> (r: bool)
    ensures
        r == (a@ == b@),
{
    if a.len() != b.len() {
        assert(a@ !~= b@);
        return false;
    }
    let mut i: usize = 0;
    while i < a.len()
        invariant
            0 <= i <= a@.len(),
            a@.len() == b@.len(),
            forall|j: int| 0 <= j < i ==> a@[j] == b@[j],
        decreases a@.len() - i,
    {
        if a[i] != b[i] {
            return false;
        }
        i += 1;
    }
    assert(a@ =~= b@);
    true
}

/// Whether `p` occurs in `v` at position `i`.
pub fn matches_at_exec(v: &Vec<char>, i: usize, p: &Vec<char>) -> (r: bool)
    ensures
        r == matches_at(v@, i as int, p@),
{
    if p.len() > v.len() || i > v.len() - p.len() {
        assert(!matches_at(v@, i as int, p@));
        return false;
    }
    let mut j: usize = 0;
    while j < p.len()
        invariant
            0 <= j <= p@.len(),
            i + p@.len() <= v@.len(),
            v@.len() <= usize::MAX,
            forall|k: int| 0 <= k < j ==> v@[i + k] == p@[k],
        decreases p@.len() - j,
    {
        assert(i + j < v@.len());
        if v[i + j] != p[j] {
            assert(v@.subrange(i as int, i + p@.len()) !~= p@);
            return false;
        }
        j += 1;
    }
    assert(v@.subrange(i as int, i + p@.len()) =~= p@);
    true
}

/// Whether `p` occurs anywhere in `v`.
pub fn contains_exec(v: &Vec<char>, p: &Vec<char>) -> (r: bool)
    ensures
        r == contains_seq(v@, p@),
{
    if p.len() > v.len() {
        assert(forall|i: int| !matches_at(v@, i, p@));
        return false;
    }
    let last: usize = v.len() - p.len();
    let mut i: usize = 0;
    loop
        invariant
            0 <= i <= last,
            last == v@.len() - p@.len(),
            p@.len() <= v@.len(),
            forall|k: int| 0 <= k < i ==> !matches_at(v@, k, p@),
        decreases last - i,
    {
        if matches_at_exec(v, i, p) {
            return true;
        }
        if i == last {
            assert forall|k: int| !matches_at(v@, k, p@) by {
                if 0 <= k <= last {
                }
            }
            return false;
        }
        i += 1;
    }
}

/// Number of leading blanks of `v`.
pub fn leading_blanks_exec(v: &Vec<char>) -> (r: usize)
    ensures
        r == leading_blanks(v@),
{
    let mut i: usize = 0;
    proof {
        assert(v@.skip(0) =~= v@);
    }
    while i < v.len() && (v[i] == ' ' || v[i] == '\t' || v[i] == '\r')
        invariant
            0 <= i <= v@.len(),
            forall|j: int| 0 <= j < i ==> is_blank(v@[j]),
            leading_blanks(v@) == i + leading_blanks(v@.skip(i as int)),
        decreases v@.len() - i,
    {
        proof {
            assert(v@.skip(i as int)[0] == v@[i as int]);
            assert(v@.skip(i as int).skip(1) =~= v@.skip(i + 1));
        }
        i += 1;
    }
    proof {
        let t = v@.skip(i as int);
        if t.len() > 0 {
            assert(t[0] == v@[i as int]);
        }
        assert(leading_blanks(t) == 0);
    }
    i
}

/// Whether `p` is a prefix of `v` once leading blanks are dropped.
pub fn trimmed_starts_with(v: &Vec<char>, p: &Vec<char>) -> (r: bool)
    ensures
        r == starts_with(trim_start_spec(v@), p@),
{
    let lb = leading_blanks_exec(v);
    proof {
        lemma_leading_blanks_le(v@);
    }
    let r = matches_at_exec(v, lb, p);
    proof {
        let t = v@.skip(lb as int);
        if r {
            assert(t.subrange(0, p@.len() as int) =~= v@.subrange(
                lb as int,
                lb + p@.len(),
            ));
        } else if p@.len() <= t.len() {
            assert(t.subrange(0, p@.len() as int) =~= v@.subrange(
                lb as int,
                lb + p@.len(),
            ));
        }
    }
    r
}

pub proof fn lemma_leading_blanks_le(s: Seq<char>)
    ensures
        leading_blanks(s) <= s.len(),
        forall|j: int| 0 <= j < leading_blanks(s) ==> is_blank(s[j]),
    decreases s.len(),
{
    if s.len() > 0 && is_blank(s[0]) {
        lemma_leading_blanks_le(s.skip(1));
        assert forall|j: int| 0 <= j < leading_blanks(s) implies is_blank(s[j]) by {
            if j > 0 {
                assert(s.skip(1)[j - 1] == s[j]);
            }
        }
    }
}

pub proof fn lemma_trailing_blanks_is(s: Seq<char>, k: int)
    requires
        0 <= k <= s.len(),
        forall|j: int| k <= j < s.len() ==> is_blank(s[j]),
        k > 0 ==> !is_blank(s[k - 1]),
    ensures
        trailing_blanks(s) == s.len() - k,
    decreases s.len(),
{
    if s.len() > 0 && is_blank(s[s.len() - 1]) {
        assert(k < s.len());
        lemma_trailing_blanks_is(s.drop_last(), k);
    }
}

/// The copy of `v[a..b]`.
pub fn subvec(v: &Vec<char>, a: usize, b: usize) -> (r: Vec<char>)
    requires
        a <= b <= v@.len(),
    ensures
        r@ == v@.subrange(a as int, b as int),
{
    let mut r: Vec<char> = Vec::new();
    let _n: usize = v.len();
    assert(v@.len() <= usize::MAX);
    let mut i: usize = a;
    while i < b
        invariant
            a <= i <= b <= v@.len(),
            v@.len() <= usize::MAX,
            r@ == v@.subrange(a as int, i as int),
        decreases b - i,
    {
        r.push(v[i]);
        assert(r@ =~= v@.subrange(a as int, i + 1));
        i += 1;
    }
    r
}

/// The copy of `v` with leading and trailing blanks removed.
pub fn trim_exec(v: &Vec<char>) -> (r: Vec<char>)
    ensures
        r@ == trim_spec(v@),
{
    let a = leading_blanks_exec(v);
    proof {
        lemma_leading_blanks_le(v@);
    }
    let mut b: usize = v.len();
    while b > a && (v[b - 1] == ' ' || v[b - 1] == '\t' || v[b - 1] == '\r')
        invariant
            a <= b <= v@.len(),
            a == leading_blanks(v@),
            forall|j: int| b <= j < v@.len() ==> is_blank(v@[j]),
        decreases b,
    {
        b -= 1;
    }
    proof {
        let t = trim_start_spec(v@);
        assert forall|j: int| b - a <= j < t.len() implies is_blank(t[j]) by {
            assert(t[j] == v@[a + j]);
        }
        if b > a {
            assert(t[b - a - 1] == v@[b - 1]);
        }
        lemma_trailing_blanks_is(t, b - a);
        assert(trim_spec(v@) =~= v@.subrange(a as int, b as int));
    }
    subvec(v, a, b)
}

/// Whether every character of `v` is blank.
pub fn all_blank_exec(v: &Vec<char>) -> (r: bool)
    ensures
        r == all_blank(v@),
{
    let mut i: usize = 0;
    while i < v.len()
        invariant
            0 <= i <= v@.len(),
            forall|j: int| 0 <= j < i ==> is_blank(v@[j]),
        decreases v@.len() - i,
    {
        if !(v[i] == ' ' || v[i] == '\t' || v[i] == '\r') {
            return false;
        }
        i += 1;
    }
    true
}

/// Index of the first occurrence of `c` in `v`, or `v.len()` if absent.
pub fn first_index_exec(v: &Vec<char>, c: char) -> (r: usize)
    ensures
        r == first_index_of(v@, c),
{
    let mut i: usize = 0;
    while i < v.len()
        invariant
            0 <= i <= v@.len(),
            forall|j: int| 0 <= j < i ==> v@[j] != c,
        decreases v@.len() - i,
    {
        if v[i] == c {
            proof {
                lemma_first_index_of_is(v@, c, i as int);
            }
            return i;
        }
        i += 1;
    }
    proof {
        lemma_first_index_of_is(v@, c, v@.len() as int);
    }
    i
}

/// Split `v` on the separator `c`.
pub fn split_on_exec(v: &Vec<char>, c: char) -> (r: Vec<Vec<char>>)
    ensures
        r.deep_view() == split_on(v@, c),
{
    let mut r: Vec<Vec<char>> = Vec::new();
    let mut cur: Vec<char> = Vec::new();
    let mut i: usize = 0;
    proof {
        assert(cur@ + v@.skip(0) =~= v@);
    }
    while i < v.len()
        invariant
            0 <= i <= v@.len(),
            forall|j: int| 0 <= j < cur@.len() ==> cur@[j] != c,
            split_on(v@, c) == r.deep_view() + split_on(cur@ + v@.skip(i as int), c),
        decreases v@.len() - i,
    {
        let ghost prev_r = r.deep_view();
        let ghost prev_cur = cur@;
        if v[i] == c {
            proof {
                assert(prev_cur + v@.skip(i as int) =~= prev_cur + seq![c] + v@.skip(
                    i + 1,
                ));
                lemma_split_on_step(prev_cur, v@.skip(i + 1), c);
            }
            r.push(cur);
            cur = Vec::new();
            proof {
                assert(r.deep_view() =~~= prev_r.push(prev_cur));
                assert(prev_r + (seq![prev_cur] + split_on(v@.skip(i + 1), c))
                    =~= r.deep_view() + split_on(v@.skip(i + 1), c));
                assert(cur@ + v@.skip(i + 1) =~= v@.skip(i + 1));
            }
        } else {
            cur.push(v[i]);
            proof {
                assert(cur@ + v@.skip(i + 1) =~= prev_cur + v@.skip(i as int));
            }
        }
        i += 1;
    }
    proof {
        assert(cur@ + v@.skip(i as int) =~= cur@);
        lemma_split_on_no_sep(cur@, c);
    }
    let ghost prev_r = r.deep_view();
    let ghost last_cur = cur@;
    r.push(cur);
    proof {
        assert(r.deep_view() =~~= prev_r.push(last_cur));
        assert(prev_r + seq![last_cur] =~= prev_r.push(last_cur));
    }
    r
}

/// Split `v` into its lines.
pub fn lines_exec(v: &Vec<char>) -> (r: Vec<Vec<char>>)
    ensures
        r.deep_view() == lines_spec(v@),
{
    if v.len() == 0 {
        let r: Vec<Vec<char>> = Vec::new();
        assert(r.deep_view() =~= lines_spec(v@));
        return r;
    }
    if v[v.len() - 1] == '\n' {
        let mut body: Vec<char> = Vec::new();
        let mut i: usize = 0;
        while i < v.len() - 1
            invariant
                v@.len() > 0,
                0 <= i <= v@.len() - 1,
                body@ == v@.take(i as int),
            decreases v@.len() - 1 - i,
        {
            body.push(v[i]);
            assert(body@ =~= v@.take(i + 1));
            i += 1;
        }
        assert(body@ =~= v@.take(v@.len() - 1));
        split_on_exec(&body, '\n')
    } else {
        split_on_exec(v, '\n')
    }
}

/// Index of the first occurrence of `p` in `v`, or `None`.
pub fn find_match(v: &Vec<char>, p: &Vec<char>) -> (r: Option<usize>)
    ensures
        match r {
            Option::Some(k) => k as int == first_match_at(v@, p@, 0) && matches_at(
                v@,
                k as int,
                p@,
            ),
            Option::None => first_match_at(v@, p@, 0) == -1,
        },
{
    if p.len() > v.len() {
        proof {
            lemma_first_match_at_is(v@, p@, 0, 0);
        }
        return Option::None;
    }
    let last: usize = v.len() - p.len();
    let mut i: usize = 0;
    loop
        invariant
            0 <= i <= last,
            last == v@.len() - p@.len(),
            p@.len() <= v@.len(),
            forall|k: int| 0 <= k < i ==> !matches_at(v@, k, p@),
        decreases last - i,
    {
        if matches_at_exec(v, i, p) {
            proof {
                lemma_first_match_at_is(v@, p@, 0, i as int);
            }
            return Option::Some(i);
        }
        if i == last {
            proof {
                lemma_first_match_at_is(v@, p@, 0, last + 1);
            }
            return Option::None;
        }
        i += 1;
    }
}

/// The two strings joined.
pub fn concat_strs(a: &str, b: &str) -> (r: String)
    ensures
        r@ == a@ + b@,
{
    let mut v = str_to_chars(a);
    push_str_chars(&mut v, b);
    string_from_chars(&v)
}

/// Whether the two strings hold the same characters.
pub fn str_eq(a: &str, b: &str) -> (r: bool)
    ensures
        r == (a@ == b@),
{
    let av = str_to_chars(a);
    let bv = str_to_chars(b);
    vec_eq(&av, &bv)
}

/// Join lines, each followed by a newline.
pub fn unlines_exec(ls: &Vec<Vec<char>>) -> (r: Vec<char>)
    ensures
        r@ == unlines(ls.deep_view()),
{
    let mut r: Vec<char> = Vec::new();
    let mut i: usize = 0;
    while i < ls.len()
        invariant
            0 <= i <= ls@.len(),
            ls.deep_view().len() == ls@.len(),
            r@ == unlines(ls.deep_view().take(i as int)),
        decreases ls@.len() - i,
    {
        push_seq(&mut r, &ls[i]);
        r.push('\n');
        proof {
            assert(ls.deep_view().take(i + 1) =~= ls.deep_view().take(i as int).push(
                ls.deep_view()[i as int],
            ));
            lemma_unlines_push(ls.deep_view().take(i as int), ls.deep_view()[i as int]);
            assert(ls.deep_view()[i as int] == ls@[i as int].deep_view());
            assert(ls@[i as int].deep_view() =~= ls@[i as int]@);
            assert(r@ =~= unlines(ls.deep_view().take(i + 1)));
        }
        i += 1;
    }
    proof {
        assert(ls.deep_view().take(ls@.len() as int) =~= ls.deep_view());
    }
    r
}

} // verus!
