//! URL slugs: a lowercased, dash-collapsed form of a title, with a
//! short random suffix to keep slugs unique.
use crate::text::join_sep;
use crate::text::nonempty_parts;
use crate::text::push_seq;
use crate::text::sep_rest;
use crate::text::split_on;
use crate::text::split_on_exec;
use crate::text::str_to_chars;
use crate::text::string_from_chars;
use vstd::prelude::*;

verus! {

/// Name for what `str::to_lowercase` returns: a function of the
/// characters alone.
pub uninterp spec fn lower_of(s: Seq<char>) -> Seq<char>;

/// Relies on `str::to_lowercase`: the result depends on the characters
/// of the input alone.
#[verifier::external_body]
fn lowercase(s: &str) -> (r: String)
    ensures
        r@ == lower_of(s@),
{
    s.to_lowercase()
}

/// Name for what `char::is_alphanumeric` returns: a predicate of the
/// character alone.
pub uninterp spec fn alnum_char(c: char) -> bool;

/// Relies on `char::is_alphanumeric`: a pure predicate of the
/// character.
pub assume_specification[ char::is_alphanumeric ](c: char) -> (r: bool)
    ensures
        r == alnum_char(c),
;

/// The characters with every non-alphanumeric one replaced by a dash.
pub open spec fn dashed(s: Seq<char>) -> Seq<char> {
    Seq::new(s.len(), |i: int| if alnum_char(s[i]) { s[i] } else { '-' })
}

/// The slug base of a lowercased title: non-alphanumeric characters
/// become dashes, runs of dashes collapse to one, and no dash leads or
/// trails.
pub open spec fn slug_base(s: Seq<char>) -> Seq<char> {
    join_sep(nonempty_parts(split_on(dashed(s), '-')), '-')
}

/// An ASCII digit or lowercase letter.
pub open spec fn is_lower_alnum(c: char) -> bool {
    (48 <= c as u32 && c as u32 <= 57) || (97 <= c as u32 && c as u32 <= 122)
}

/// An ASCII digit or letter.
pub open spec fn is_ascii_alnum(c: char) -> bool {
    (48 <= c as u32 && c as u32 <= 57) || (65 <= c as u32 && c as u32 <= 90) || (97
        <= c as u32 && c as u32 <= 122)
}

/// An ASCII uppercase letter mapped to lowercase; anything else kept.
pub open spec fn ascii_lower_spec(c: char) -> char {
    if 65 <= c as u32 && c as u32 <= 90 {
        (((c as u32) + 32) as u8) as char
    } else {
        c
    }
}

fn ascii_lower(c: char) -> (r: char)
    ensures
        r == ascii_lower_spec(c),
{
    let u: u32 = c as u32;
    if 65 <= u && u <= 90 {
        ((u + 32) as u8) as char
    } else {
        c
    }
}

/// Relies on `rand::rng` and the `Alphanumeric` distribution: every
/// sampled value is an ASCII letter or digit. Nothing is assumed about
/// which characters come out.
#[verifier::external_body]
fn random_alphanumeric(n: usize) -> (r: Vec<char>)
    ensures
        r@.len() == n,
        forall|i: int| 0 <= i < r@.len() ==> is_ascii_alnum(#[trigger] r@[i]),
{
    rand::Rng::sample_iter(rand::rng(), &rand::distr::Alphanumeric).take(n).map(
        char::from,
    ).collect()
}

/// Build a URL slug for a title: the lowercased title with
/// non-alphanumeric runs collapsed to single dashes, then a dash and
/// six random lowercase alphanumeric characters.
pub fn make_slug(title: &str) -> (r: String)
    ensures
        ({
            let base = slug_base(lower_of(title@));
            &&& r@.len() == base.len() + 7
            &&& r@.subrange(0, base.len() as int) == base
            &&& r@[base.len() as int] == '-'
            &&& forall|i: int|
                base.len() < i < r@.len() ==> is_lower_alnum(#[trigger] r@[i])
        }),
{
    let low = lowercase(title);
    let lc = str_to_chars(low.as_str());
    let mut mapped: Vec<char> = Vec::new();
    let mut i: usize = 0;
    while i < lc.len()
        invariant
            0 <= i <= lc@.len(),
            mapped@.len() == i,
            forall|j: int| 0 <= j < i ==> #[trigger] mapped@[j] == dashed(lc@)[j],
        decreases lc@.len() - i,
    {
        let c = lc[i];
        if c.is_alphanumeric() {
            mapped.push(c);
        } else {
            mapped.push('-');
        }
        i += 1;
    }
    proof {
        assert(mapped@ =~= dashed(lc@));
    }
    let parts = split_on_exec(&mapped, '-');
    let ghost pv = parts.deep_view();
    let ghost total = join_sep(nonempty_parts(pv), '-');
    let mut base: Vec<char> = Vec::new();
    let mut started: bool = false;
    let mut k: usize = 0;
    proof {
        assert(pv.skip(0) =~= pv);
        assert(base@ + join_sep(nonempty_parts(pv.skip(0)), '-') =~= total);
    }
    while k < parts.len()
        invariant
            0 <= k <= parts@.len(),
            pv == parts.deep_view(),
            pv.len() == parts@.len(),
            total == join_sep(nonempty_parts(pv), '-'),
            !started ==> base@ + join_sep(nonempty_parts(pv.skip(k as int)), '-')
                == total,
            started ==> base@ + sep_rest(nonempty_parts(pv.skip(k as int)), '-')
                == total,
        decreases parts@.len() - k,
    {
        let ghost b0 = base@;
        let ghost was_started = started;
        let p = &parts[k];
        proof {
            assert(pv[k as int] == parts@[k as int].deep_view());
            assert(parts@[k as int].deep_view() =~= p@);
            assert(pv.skip(k as int)[0] == pv[k as int]);
            assert(pv.skip(k as int).skip(1) =~= pv.skip(k + 1));
        }
        if p.len() > 0 {
            if started {
                base.push('-');
            }
            push_seq(&mut base, p);
            proof {
                let ne = nonempty_parts(pv.skip(k as int));
                assert(ne == seq![pv[k as int]] + nonempty_parts(pv.skip(k + 1)));
                assert(ne[0] == pv[k as int]);
                assert(ne.skip(1) =~= nonempty_parts(pv.skip(k + 1)));
                if was_started {
                    assert(sep_rest(ne, '-') == seq!['-'] + ne[0] + sep_rest(
                        ne.skip(1),
                        '-',
                    ));
                    assert(base@ =~= b0 + seq!['-'] + pv[k as int]);
                    assert(base@ + sep_rest(nonempty_parts(pv.skip(k + 1)), '-')
                        =~= b0 + sep_rest(ne, '-'));
                } else {
                    assert(join_sep(ne, '-') == ne[0] + sep_rest(ne.skip(1), '-'));
                    assert(base@ =~= b0 + pv[k as int]);
                    assert(base@ + sep_rest(nonempty_parts(pv.skip(k + 1)), '-')
                        =~= b0 + join_sep(ne, '-'));
                }
            }
            started = true;
        } else {
            proof {
                assert(nonempty_parts(pv.skip(k as int)) == nonempty_parts(
                    pv.skip(k + 1),
                ));
            }
        }
        k += 1;
    }
    proof {
        assert(pv.skip(pv.len() as int) =~= Seq::<Seq<char>>::empty());
        assert(nonempty_parts(Seq::<Seq<char>>::empty()) == Seq::<Seq<char>>::empty());
        assert(join_sep(Seq::<Seq<char>>::empty(), '-') == Seq::<char>::empty());
        assert(sep_rest(Seq::<Seq<char>>::empty(), '-') == Seq::<char>::empty());
        assert(base@ =~= total);
        assert(base@ == slug_base(lower_of(title@)));
    }
    let sfx = random_alphanumeric(6);
    let ghost base_seq = base@;
    let mut out = base;
    out.push('-');
    let mut q: usize = 0;
    proof {
        assert(out@.subrange(0, base_seq.len() as int) =~= base_seq);
    }
    while q < sfx.len()
        invariant
            0 <= q <= sfx@.len(),
            sfx@.len() == 6,
            forall|i: int| 0 <= i < sfx@.len() ==> is_ascii_alnum(#[trigger] sfx@[i]),
            out@.len() == base_seq.len() + 1 + q,
            out@.subrange(0, base_seq.len() as int) == base_seq,
            out@[base_seq.len() as int] == '-',
            forall|i: int|
                base_seq.len() < i < out@.len() ==> is_lower_alnum(#[trigger] out@[i]),
        decreases sfx@.len() - q,
    {
        let ghost o0 = out@;
        let c = ascii_lower(sfx[q]);
        proof {
            assert(is_ascii_alnum(sfx@[q as int]));
            assert(is_lower_alnum(ascii_lower_spec(sfx@[q as int])));
        }
        out.push(c);
        proof {
            assert(out@.subrange(0, base_seq.len() as int) =~= o0.subrange(
                0,
                base_seq.len() as int,
            ));
        }
        q += 1;
    }
    string_from_chars(&out)
}

} // verus!
