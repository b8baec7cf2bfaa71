//! Conversion of `snake_case` names to `PascalCase`, used to derive type
//! names from table names and schema names from file names.
use crate::text::{split_on, split_on_exec, str_to_chars, string_from_chars};
use vstd::prelude::*;

verus! {

/// An ASCII lowercase letter mapped to its uppercase form; any other
/// character is left as it is.
pub open spec fn upper_char_spec(c: char) -> char {
    if 97 <= c as u32 && c as u32 <= 122 {
        (((c as u32) - 32) as u8) as char
    } else {
        c
    }
}

/// A word with its first character uppercased.
pub open spec fn cap_word(w: Seq<char>) -> Seq<char> {
    if w.len() == 0 {
        w
    } else {
        seq![upper_char_spec(w[0])] + w.skip(1)
    }
}

/// The capitalized words, concatenated. Empty words contribute nothing.
pub open spec fn concat_caps(ls: Seq<Seq<char>>) -> Seq<char>
    decreases ls.len(),
{
    if ls.len() == 0 {
        seq![]
    } else {
        cap_word(ls[0]) + concat_caps(ls.skip(1))
    }
}

/// `snake_case` to `PascalCase`: split on `'_'`, capitalize each
/// segment, and concatenate; empty segments are dropped.
pub open spec fn pascal_of(s: Seq<char>) -> Seq<char> {
    concat_caps(split_on(s, '_'))
}

pub fn upper_char(c: char) -> (r: char)
    ensures
        r == upper_char_spec(c),
{
    let u: u32 = c as u32;
    if 97 <= u && u <= 122 {
        ((u - 32) as u8) as char
    } else {
        c
    }
}

/// Convert a `snake_case` string to `PascalCase`.
pub fn to_pascal_case(s: &str) -> (r: String)
    ensures
        r@ == pascal_of(s@),
{
    let v = str_to_chars(s);
    let parts = split_on_exec(&v, '_');
    let mut out: Vec<char> = Vec::new();
    let mut i: usize = 0;
    proof {
        assert(parts.deep_view().skip(0) =~= parts.deep_view());
        assert(out@ + concat_caps(parts.deep_view()) =~= concat_caps(
            parts.deep_view(),
        ));
    }
    while i < parts.len()
        invariant
            0 <= i <= parts@.len(),
            parts.deep_view() == split_on(v@, '_'),
            parts.deep_view().len() == parts@.len(),
            concat_caps(parts.deep_view()) == out@ + concat_caps(
                parts.deep_view().skip(i as int),
            ),
        decreases parts@.len() - i,
    {
        let ghost dv = parts.deep_view();
        let ghost out0 = out@;
        let w = &parts[i];
        proof {
            assert(dv[i as int] == parts@[i as int].deep_view());
            assert(parts@[i as int].deep_view() =~= w@);
        }
        if w.len() > 0 {
            out.push(upper_char(w[0]));
            let ghost mid = out@;
            let mut j: usize = 1;
            while j < w.len()
                invariant
                    1 <= j <= w@.len(),
                    out@ == mid + w@.subrange(1, j as int),
                decreases w@.len() - j,
            {
                out.push(w[j]);
                assert(out@ =~= mid + w@.subrange(1, j + 1));
                j += 1;
            }
            proof {
                assert(w@.subrange(1, w@.len() as int) =~= w@.skip(1));
                assert(out@ =~= out0 + cap_word(w@));
            }
        } else {
            assert(out@ =~= out0 + cap_word(w@));
        }
        proof {
            assert(dv.skip(i as int)[0] == dv[i as int]);
            assert(dv.skip(i as int).skip(1) =~= dv.skip(i + 1));
            assert(concat_caps(dv.skip(i as int)) == cap_word(dv[i as int])
                + concat_caps(dv.skip(i + 1)));
            assert(out0 + concat_caps(dv.skip(i as int)) =~= out@ + concat_caps(
                dv.skip(i + 1),
            ));
        }
        i += 1;
    }
    proof {
        assert(parts.deep_view().skip(parts@.len() as int)
            =~= Seq::<Seq<char>>::empty());
        assert(concat_caps(Seq::<Seq<char>>::empty()) == Seq::<char>::empty());
        assert(out@ =~= concat_caps(parts.deep_view()));
    }
    string_from_chars(&out)
}

proof fn lemma_split_on_no_newline(s: Seq<char>, c: char)
    requires
        forall|j: int| 0 <= j < s.len() ==> s[j] != '\n',
    ensures
        forall|k: int, j: int|
            0 <= k < split_on(s, c).len() && 0 <= j < split_on(s, c)[k].len()
                ==> split_on(s, c)[k][j] != '\n',
    decreases s.len(),
{
    crate::text::lemma_first_index_of(s, c);
    let i = crate::text::first_index_of(s, c) as int;
    if i < s.len() {
        assert forall|j: int| 0 <= j < s.skip(i + 1).len() implies #[trigger] s.skip(
            i + 1,
        )[j] != '\n' by {
            assert(s.skip(i + 1)[j] == s[i + 1 + j]);
        }
        lemma_split_on_no_newline(s.skip(i + 1), c);
        assert forall|k: int, j: int|
            0 <= k < split_on(s, c).len() && 0 <= j < split_on(s, c)[k].len()
            implies split_on(s, c)[k][j] != '\n' by {
            if k == 0 {
                assert(split_on(s, c)[0] == s.take(i));
                assert(s.take(i)[j] == s[j]);
            } else {
                assert(split_on(s, c)[k] == split_on(s.skip(i + 1), c)[k - 1]);
            }
        }
    } else {
        assert forall|k: int, j: int|
            0 <= k < split_on(s, c).len() && 0 <= j < split_on(s, c)[k].len()
            implies split_on(s, c)[k][j] != '\n' by {
            assert(split_on(s, c)[k] == s);
        }
    }
}

proof fn lemma_concat_caps_no_newline(ls: Seq<Seq<char>>)
    requires
        forall|k: int, j: int|
            0 <= k < ls.len() && 0 <= j < ls[k].len() ==> ls[k][j] != '\n',
    ensures
        forall|j: int| 0 <= j < concat_caps(ls).len() ==> concat_caps(ls)[j] != '\n',
    decreases ls.len(),
{
    if ls.len() > 0 {
        assert forall|k: int, j: int|
            0 <= k < ls.skip(1).len() && 0 <= j < ls.skip(1)[k].len()
            implies #[trigger] ls.skip(1)[k][j] != '\n' by {
            assert(ls.skip(1)[k] == ls[k + 1]);
        }
        lemma_concat_caps_no_newline(ls.skip(1));
        assert forall|j: int| 0 <= j < concat_caps(ls).len() implies concat_caps(
            ls,
        )[j] != '\n' by {
            let w = ls[0];
            let cw = cap_word(w);
            if j < cw.len() {
                assert(concat_caps(ls)[j] == cw[j]);
                if w.len() > 0 && j == 0 {
                    assert(cw[0] == upper_char_spec(w[0]));
                    assert(w[0] != '\n');
                } else {
                    assert(cw[j] == w.skip(1)[j - 1] || w.len() == 0);
                    if w.len() > 0 {
                        assert(w.skip(1)[j - 1] == w[j]);
                    }
                }
            } else {
                assert(concat_caps(ls)[j] == concat_caps(ls.skip(1))[j - cw.len()]);
            }
        }
    }
}

/// A name without newlines converts to a name without newlines.
pub proof fn lemma_pascal_no_newline(s: Seq<char>)
    requires
        forall|j: int| 0 <= j < s.len() ==> s[j] != '\n',
    ensures
        forall|j: int| 0 <= j < pascal_of(s).len() ==> pascal_of(s)[j] != '\n',
{
    lemma_split_on_no_newline(s, '_');
    lemma_concat_caps_no_newline(split_on(s, '_'));
}

/// Convert a `snake_case` string to `PascalCase`.
pub fn snake_to_pascal(s: &str) -> (r: String)
    ensures
        r@ == pascal_of(s@),
{
    to_pascal_case(s)
}

} // verus!
