//! Extraction of plain text from rich-text documents, and excerpts cut
//! to a word limit.
use crate::text::join_sep;
use crate::text::nonempty_parts;
use crate::text::push_seq;
use crate::text::push_str_chars;
use crate::text::sep_rest;
use crate::text::split_on;
use crate::text::split_on_exec;
use crate::text::str_to_chars;
use crate::text::string_from_chars;
use crate::text::subvec;
use vstd::prelude::*;

verus! {

broadcast use
    vstd::seq::axiom_seq_index_decreases,
    vstd::std_specs::vec::axiom_vec_index_decreases,
    vstd::std_specs::vec::axiom_vec_decreases_to_view,
;

/// One node of a rich-text document: its own optional text, then its
/// child nodes.
pub struct TiptapNode {
    pub text: Option<String>,
    pub content: Vec<TiptapNode>,
}

/// The text parts of a node in document order: its own text, then its
/// children's parts, recursively.
pub open spec fn node_parts(n: TiptapNode) -> Seq<Seq<char>>
    decreases n, 0int,
{
    (match n.text {
        Option::Some(t) => seq![t@],
        Option::None => seq![],
    }) + children_parts(n.content@, 0)
}

/// The concatenated parts of the children from index `i` on.
pub open spec fn children_parts(s: Seq<TiptapNode>, i: int) -> Seq<Seq<char>>
    decreases s, s.len() - i,
{
    if i < 0 || i >= s.len() {
        seq![]
    } else {
        node_parts(s[i]) + children_parts(s, i + 1)
    }
}

/// The full text of a document: all text parts joined with single
/// spaces.
pub open spec fn full_text_of(n: TiptapNode) -> Seq<char> {
    join_sep(node_parts(n), ' ')
}

/// A space-class character, as word boundaries are drawn: the Unicode
/// White_Space set.
pub open spec fn is_space(c: char) -> bool {
    let u = c as u32;
    (0x9 <= u && u <= 0xD) || u == 0x20 || u == 0x85 || u == 0xA0 || u == 0x1680 || (
    0x2000 <= u && u <= 0x200A) || u == 0x2028 || u == 0x2029 || u == 0x202F || u
        == 0x205F || u == 0x3000
}

fn is_space_exec(c: char) -> (r: bool)
    ensures
        r == is_space(c),
{
    let u: u32 = c as u32;
    (0x9 <= u && u <= 0xD) || u == 0x20 || u == 0x85 || u == 0xA0 || u == 0x1680 || (
    0x2000 <= u && u <= 0x200A) || u == 0x2028 || u == 0x2029 || u == 0x202F || u
        == 0x205F || u == 0x3000
}

/// The text with every space-class character as a plain space.
pub open spec fn space_mapped(s: Seq<char>) -> Seq<char> {
    Seq::new(s.len(), |i: int| if is_space(s[i]) { ' ' } else { s[i] })
}

/// The words of a text: its maximal nonempty space-free stretches.
pub open spec fn words_of(s: Seq<char>) -> Seq<Seq<char>> {
    nonempty_parts(split_on(space_mapped(s), ' '))
}

fn collect_parts(n: &TiptapNode, out: &mut Vec<String>)
    ensures
        final(out).deep_view() == old(out).deep_view() + node_parts(*n),
    decreases *n,
{
    let ghost o0 = out.deep_view();
    match &n.text {
        Option::Some(t) => {
            out.push(t.clone());
            proof {
                assert(out.deep_view() =~~= o0 + seq![n.text->Some_0@]);
            }
        },
        Option::None => {
            proof {
                assert(out.deep_view() =~~= o0 + Seq::<Seq<char>>::empty());
            }
        },
    }
    let ghost mid = out.deep_view();
    let ghost cs = n.content@;
    let mut i: usize = 0;
    while i < n.content.len()
        invariant
            0 <= i <= cs.len(),
            cs == n.content@,
            out.deep_view() + children_parts(cs, i as int) == mid + children_parts(
                cs,
                0,
            ),
        decreases cs.len() - i,
    {
        let ghost before = out.deep_view();
        collect_parts(&n.content[i], out);
        proof {
            assert(children_parts(cs, i as int) == node_parts(cs[i as int])
                + children_parts(cs, i + 1));
            assert(out.deep_view() + children_parts(cs, i + 1) =~~= before
                + children_parts(cs, i as int));
        }
        i += 1;
    }
    proof {
        assert(children_parts(cs, cs.len() as int) == Seq::<Seq<char>>::empty());
        assert(out.deep_view() =~~= mid + children_parts(cs, 0));
        assert(out.deep_view() =~~= o0 + node_parts(*n));
    }
}

/// All text parts of the document, in document order.
pub fn extract_text_parts(doc: &TiptapNode) -> (r: Vec<String>)
    ensures
        r.deep_view() == node_parts(*doc),
{
    let mut out: Vec<String> = Vec::new();
    proof {
        assert(out.deep_view() =~~= Seq::<Seq<char>>::empty());
    }
    collect_parts(doc, &mut out);
    proof {
        assert(out.deep_view() =~~= node_parts(*doc));
    }
    out
}

/// The document's text parts joined with single spaces.
pub fn extract_full_text(doc: &TiptapNode) -> (r: String)
    ensures
        r@ == full_text_of(*doc),
{
    let parts = extract_text_parts(doc);
    let ghost pv = parts.deep_view();
    let mut out: Vec<char> = Vec::new();
    let mut i: usize = 0;
    proof {
        assert(pv.skip(0) =~= pv);
        assert(out@ + join_sep(pv.skip(0), ' ') =~= join_sep(pv, ' '));
    }
    while i < parts.len()
        invariant
            0 <= i <= parts@.len(),
            pv == parts.deep_view(),
            pv.len() == parts@.len(),
            i == 0 ==> out@ + join_sep(pv.skip(i as int), ' ') == join_sep(pv, ' '),
            i > 0 ==> out@ + sep_rest(pv.skip(i as int), ' ') == join_sep(pv, ' '),
        decreases parts@.len() - i,
    {
        let ghost o0 = out@;
        if i > 0 {
            out.push(' ');
        }
        push_str_chars(&mut out, parts[i].as_str());
        proof {
            assert(pv[i as int] == parts@[i as int].deep_view());
            assert(pv.skip(i as int)[0] == pv[i as int]);
            assert(pv.skip(i as int).skip(1) =~= pv.skip(i + 1));
            if i == 0 {
                assert(join_sep(pv.skip(0), ' ') == pv[0] + sep_rest(pv.skip(1), ' '));
                assert(out@ =~= o0 + pv[0]);
                assert(out@ + sep_rest(pv.skip(1), ' ') =~= o0 + join_sep(
                    pv.skip(0),
                    ' ',
                ));
            } else {
                assert(sep_rest(pv.skip(i as int), ' ') == seq![' '] + pv[i as int]
                    + sep_rest(pv.skip(i + 1), ' '));
                assert(out@ =~= o0 + seq![' '] + pv[i as int]);
                assert(out@ + sep_rest(pv.skip(i + 1), ' ') =~= o0 + sep_rest(
                    pv.skip(i as int),
                    ' ',
                ));
            }
        }
        i += 1;
    }
    proof {
        assert(pv.skip(pv.len() as int) =~= Seq::<Seq<char>>::empty());
        assert(join_sep(Seq::<Seq<char>>::empty(), ' ') == Seq::<char>::empty());
        assert(sep_rest(Seq::<Seq<char>>::empty(), ' ') == Seq::<char>::empty());
        assert(out@ =~= join_sep(pv, ' '));
    }
    string_from_chars(&out)
}

/// The excerpt of a document: its full text when that has no more than
/// `word_limit` words, else the first `word_limit` words joined with
/// spaces, closed with an ellipsis.
pub fn create_excerpt(doc: &TiptapNode, word_limit: usize) -> (r: String)
    ensures
        ({
            let ws = words_of(full_text_of(*doc));
            &&& ws.len() <= word_limit ==> r@ == full_text_of(*doc)
            &&& ws.len() > word_limit ==> r@ == join_sep(
                ws.take(word_limit as int),
                ' ',
            ) + "..."@
        }),
{
    let full = extract_full_text(doc);
    let fv = str_to_chars(full.as_str());
    let mut sm: Vec<char> = Vec::new();
    let mut i: usize = 0;
    while i < fv.len()
        invariant
            0 <= i <= fv@.len(),
            sm@.len() == i,
            forall|j: int| 0 <= j < i ==> #[trigger] sm@[j] == space_mapped(fv@)[j],
        decreases fv@.len() - i,
    {
        let c = fv[i];
        if is_space_exec(c) {
            sm.push(' ');
        } else {
            sm.push(c);
        }
        i += 1;
    }
    proof {
        assert(sm@ =~= space_mapped(fv@));
    }
    let parts = split_on_exec(&sm, ' ');
    let ghost pv = parts.deep_view();
    let mut words: Vec<Vec<char>> = Vec::new();
    let mut k: usize = 0;
    proof {
        assert(pv.skip(0) =~= pv);
        assert(words.deep_view() + nonempty_parts(pv.skip(0)) =~= nonempty_parts(pv));
    }
    while k < parts.len()
        invariant
            0 <= k <= parts@.len(),
            pv == parts.deep_view(),
            pv.len() == parts@.len(),
            words.deep_view() + nonempty_parts(pv.skip(k as int)) == nonempty_parts(
                pv,
            ),
        decreases parts@.len() - k,
    {
        let ghost w0 = words.deep_view();
        let p = &parts[k];
        proof {
            assert(pv[k as int] == parts@[k as int].deep_view());
            assert(parts@[k as int].deep_view() =~= p@);
            assert(pv.skip(k as int)[0] == pv[k as int]);
            assert(pv.skip(k as int).skip(1) =~= pv.skip(k + 1));
        }
        if p.len() > 0 {
            words.push(subvec(p, 0, p.len()));
            proof {
                assert(words.deep_view() =~~= w0.push(pv[k as int]));
                assert(nonempty_parts(pv.skip(k as int)) == seq![pv[k as int]]
                    + nonempty_parts(pv.skip(k + 1)));
                assert(words.deep_view() + nonempty_parts(pv.skip(k + 1))
                    =~~= w0 + nonempty_parts(pv.skip(k as int)));
            }
        } else {
            proof {
                assert(nonempty_parts(pv.skip(k as int)) == nonempty_parts(
                    pv.skip(k + 1),
                ));
            }
        }
        k += 1;
    }
    proof {
        assert(pv.skip(pv.len() as int) =~= Seq::<Seq<char>>::empty());
        assert(nonempty_parts(Seq::<Seq<char>>::empty()) == Seq::<Seq<char>>::empty());
        assert(words.deep_view() =~~= nonempty_parts(pv));
        assert(words.deep_view() == words_of(full_text_of(*doc)));
    }
    if words.len() <= word_limit {
        return full;
    }
    let ghost ws = words.deep_view();
    let ghost wst = ws.take(word_limit as int);
    let mut out: Vec<char> = Vec::new();
    let mut j: usize = 0;
    proof {
        assert(wst.skip(0) =~= wst);
        assert(out@ + join_sep(wst.skip(0), ' ') =~= join_sep(wst, ' '));
    }
    while j < word_limit
        invariant
            0 <= j <= word_limit,
            word_limit < words@.len(),
            ws == words.deep_view(),
            ws.len() == words@.len(),
            wst == ws.take(word_limit as int),
            j == 0 ==> out@ + join_sep(wst.skip(j as int), ' ') == join_sep(wst, ' '),
            j > 0 ==> out@ + sep_rest(wst.skip(j as int), ' ') == join_sep(wst, ' '),
        decreases word_limit - j,
    {
        let ghost o0 = out@;
        if j > 0 {
            out.push(' ');
        }
        push_seq(&mut out, &words[j]);
        proof {
            assert(ws[j as int] == words@[j as int].deep_view());
            assert(words@[j as int].deep_view() =~= words@[j as int]@);
            assert(wst[j as int] == ws[j as int]);
            assert(wst.skip(j as int)[0] == wst[j as int]);
            assert(wst.skip(j as int).skip(1) =~= wst.skip(j + 1));
            if j == 0 {
                assert(join_sep(wst.skip(0), ' ') == wst[0] + sep_rest(
                    wst.skip(1),
                    ' ',
                ));
                assert(out@ =~= o0 + wst[0]);
                assert(out@ + sep_rest(wst.skip(1), ' ') =~= o0 + join_sep(
                    wst.skip(0),
                    ' ',
                ));
            } else {
                assert(sep_rest(wst.skip(j as int), ' ') == seq![' '] + wst[j as int]
                    + sep_rest(wst.skip(j + 1), ' '));
                assert(out@ =~= o0 + seq![' '] + wst[j as int]);
                assert(out@ + sep_rest(wst.skip(j + 1), ' ') =~= o0 + sep_rest(
                    wst.skip(j as int),
                    ' ',
                ));
            }
        }
        j += 1;
    }
    proof {
        assert(wst.skip(word_limit as int) =~= Seq::<Seq<char>>::empty());
        assert(join_sep(Seq::<Seq<char>>::empty(), ' ') == Seq::<char>::empty());
        assert(sep_rest(Seq::<Seq<char>>::empty(), ' ') == Seq::<char>::empty());
        assert(out@ =~= join_sep(wst, ' '));
    }
    push_str_chars(&mut out, "...");
    string_from_chars(&out)
}

} // verus!
