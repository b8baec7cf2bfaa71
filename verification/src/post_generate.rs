//! The post-processor: rewrites generated model sources to add
//! serialization and schema annotations, idempotently.
//!
//! Two passes run over a file's text:
//! - above every optional field whose name stands in the configured
//!   skip list, a `#[serde(skip_serializing_if = "Option::is_none")]`
//!   line is inserted, unless the line directly above already carries
//!   that annotation;
//! - after the table-name annotation and before the model declaration,
//!   a `#[schema(as = ...)]` line naming the PascalCase schema is
//!   inserted, unless such an annotation stands anywhere in the file.
use crate::names::pascal_of;
use crate::text::all_blank_exec;
use crate::names::to_pascal_case;
use crate::parser_converter::is_blank_line;
use crate::parser_converter::is_struct_model_line;
use crate::parser_converter::is_table_attr_line;
use crate::text::contains_exec;
use crate::text::contains_seq;
use crate::text::leading_blanks;
use crate::text::leading_blanks_exec;
use crate::text::lines_exec;
use crate::text::lines_spec;
use crate::text::matches_at;
use crate::text::push_str_chars;
use crate::text::starts_with;
use crate::text::str_to_chars;
use crate::text::string_from_chars;
use crate::text::subvec;
use crate::text::trim_start_spec;
use crate::text::trimmed_starts_with;
use crate::text::unlines;
use crate::text::unlines_exec;
use vstd::prelude::*;

verus! {

/// The serialization-skip annotation's distinctive text.
pub open spec fn skip_marker() -> Seq<char> {
    "skip_serializing_if"@
}

/// The full annotation inserted above optional fields.
pub open spec fn skip_attr_text() -> Seq<char> {
    "#[serde(skip_serializing_if = \"Option::is_none\")]"@
}

/// `n` spaces.
pub open spec fn blanks(n: nat) -> Seq<char> {
    Seq::new(n, |i: int| ' ')
}

/// The annotation line inserted above a field indented by `indent`.
pub open spec fn skip_attr_line(indent: nat) -> Seq<char> {
    blanks(indent) + skip_attr_text()
}

/// The declaration prefix of an optional field named `f`.
pub open spec fn field_pattern(f: Seq<char>) -> Seq<char> {
    "pub "@ + f + ": Option<"@
}

/// The line declares an optional field whose name stands in `fields`.
pub open spec fn line_matches_field(l: Seq<char>, fields: Seq<Seq<char>>) -> bool {
    exists|j: int|
        0 <= j < fields.len() && starts_with(trim_start_spec(l), field_pattern(fields[j]))
}

/// The line already carries the skip annotation.
pub open spec fn has_marker(l: Seq<char>) -> bool {
    contains_seq(l, skip_marker())
}

/// An annotation is inserted above line `i`: it declares a listed
/// optional field and the line directly above carries no annotation.
pub open spec fn ins_at(ls: Seq<Seq<char>>, i: int, fields: Seq<Seq<char>>) -> bool {
    line_matches_field(ls[i], fields) && !(i > 0 && has_marker(ls[i - 1]))
}

/// What line `i` contributes to the output: itself, preceded by the
/// annotation when one is owed.
pub open spec fn contribution(ls: Seq<Seq<char>>, i: int, fields: Seq<Seq<char>>) -> Seq<
    Seq<char>,
> {
    if ins_at(ls, i, fields) {
        seq![skip_attr_line(leading_blanks(ls[i])), ls[i]]
    } else {
        seq![ls[i]]
    }
}

/// The output lines built from the first `i` input lines.
pub open spec fn skip_upto(ls: Seq<Seq<char>>, fields: Seq<Seq<char>>, i: int) -> Seq<
    Seq<char>,
>
    decreases i,
{
    if i <= 0 {
        seq![]
    } else {
        skip_upto(ls, fields, i - 1) + contribution(ls, i - 1, fields)
    }
}

/// All output lines of the skip-annotation pass.
pub open spec fn skip_all(ls: Seq<Seq<char>>, fields: Seq<Seq<char>>) -> Seq<Seq<char>> {
    skip_upto(ls, fields, ls.len() as int)
}

/// The skip-annotation pass over a whole text.
pub open spec fn add_skip_spec(s: Seq<char>, fields: Seq<Seq<char>>) -> Seq<char> {
    unlines(skip_all(lines_spec(s), fields))
}

// ---------------------------------------------------------------------
// Schema alias.
// ---------------------------------------------------------------------

/// The schema annotation's distinctive prefix.
pub open spec fn schema_marker() -> Seq<char> {
    "#[schema(as = "@
}

/// The schema annotation line for a given indentation and name.
pub open spec fn alias_line_for(indent: nat, name: Seq<char>) -> Seq<char> {
    blanks(indent) + "#[schema(as = "@ + name + ")]"@
}

/// First non-blank line at or after `i`, or `ls.len()`.
pub open spec fn next_nonblank(ls: Seq<Seq<char>>, i: int) -> int
    decreases ls.len() - i,
{
    if i < 0 || i >= ls.len() {
        ls.len() as int
    } else if is_blank_line(ls[i]) {
        next_nonblank(ls, i + 1)
    } else {
        i
    }
}

pub proof fn lemma_next_nonblank(ls: Seq<Seq<char>>, i: int)
    requires
        0 <= i <= ls.len(),
    ensures
        i <= next_nonblank(ls, i) <= ls.len(),
        next_nonblank(ls, i) < ls.len() ==> !is_blank_line(ls[next_nonblank(ls, i)]),
        forall|j: int| i <= j < next_nonblank(ls, i) ==> is_blank_line(#[trigger] ls[j]),
    decreases ls.len() - i,
{
    if i < ls.len() && is_blank_line(ls[i]) {
        lemma_next_nonblank(ls, i + 1);
    }
}

pub proof fn lemma_next_nonblank_is(ls: Seq<Seq<char>>, i: int, k: int)
    requires
        0 <= i <= k <= ls.len(),
        forall|j: int| i <= j < k ==> is_blank_line(#[trigger] ls[j]),
        k < ls.len() ==> !is_blank_line(ls[k]),
    ensures
        next_nonblank(ls, i) == k,
    decreases k - i,
{
    if i < k {
        lemma_next_nonblank_is(ls, i + 1, k);
    }
}

/// Line `i` annotates the table name and the next non-blank line after
/// it declares the model struct.
pub open spec fn alias_pair_at(ls: Seq<Seq<char>>, i: int) -> bool {
    is_table_attr_line(ls[i]) && next_nonblank(ls, i + 1) < ls.len()
        && is_struct_model_line(ls[next_nonblank(ls, i + 1)])
}

/// Index of the model-struct line of the first table-annotation and
/// struct-declaration pair, with blank lines between the two allowed;
/// `ls.len()` if no pair exists.
pub open spec fn find_alias_insert(ls: Seq<Seq<char>>, i: int) -> int
    decreases ls.len() - i,
{
    if i < 0 || i >= ls.len() {
        ls.len() as int
    } else if alias_pair_at(ls, i) {
        next_nonblank(ls, i + 1)
    } else {
        find_alias_insert(ls, i + 1)
    }
}

pub proof fn lemma_find_alias_insert_is(ls: Seq<Seq<char>>, i: int, k: int)
    requires
        0 <= i <= k <= ls.len(),
        forall|j: int| i <= j < k ==> !(#[trigger] alias_pair_at(ls, j)),
        k < ls.len() ==> alias_pair_at(ls, k),
    ensures
        find_alias_insert(ls, i) == if k < ls.len() {
            next_nonblank(ls, k + 1)
        } else {
            ls.len() as int
        },
    decreases k - i,
{
    if i < k {
        lemma_find_alias_insert_is(ls, i + 1, k);
    }
}

pub proof fn lemma_find_alias_insert_found(ls: Seq<Seq<char>>, i: int)
    requires
        0 <= i <= ls.len(),
    ensures
        i <= find_alias_insert(ls, i) <= ls.len(),
        find_alias_insert(ls, i) < ls.len() ==> i < find_alias_insert(ls, i)
            && is_struct_model_line(ls[find_alias_insert(ls, i)]),
    decreases ls.len() - i,
{
    if i < ls.len() {
        if alias_pair_at(ls, i) {
            lemma_next_nonblank(ls, i + 1);
        } else {
            lemma_find_alias_insert_found(ls, i + 1);
        }
    }
}

/// The lines with the alias inserted directly above the model line.
pub open spec fn alias_lines(ls: Seq<Seq<char>>, name: Seq<char>) -> Seq<Seq<char>> {
    let p = find_alias_insert(ls, 0);
    ls.take(p) + seq![alias_line_for(leading_blanks(ls[p]), name)] + ls.skip(p)
}

/// The schema-alias pass: insert `#[schema(as = <PascalCase(table)>)]`
/// directly above the model declaration that follows the table
/// annotation (blank lines between the two allowed), unless such an
/// annotation already stands anywhere in the text or no such pair
/// exists. Apart from the one inserted line the text is kept byte for
/// byte; in particular a text without a final newline does not gain
/// one.
pub open spec fn add_alias_spec(s: Seq<char>, table: Seq<char>) -> Seq<char> {
    if contains_seq(s, schema_marker()) {
        s
    } else {
        let ls = lines_spec(s);
        let p = find_alias_insert(ls, 0);
        if p >= ls.len() {
            s
        } else {
            let joined = unlines(alias_lines(ls, pascal_of(table)));
            if s[s.len() - 1] == '\n' {
                joined
            } else {
                joined.take(joined.len() - 1)
            }
        }
    }
}

/// Both passes, as run over each model file.
pub open spec fn process_spec(s: Seq<char>, stem: Seq<char>, fields: Seq<Seq<char>>) -> Seq<
    char,
> {
    add_alias_spec(add_skip_spec(s, fields), stem)
}

// ---------------------------------------------------------------------
// Executable passes.
// ---------------------------------------------------------------------

/// The configured skip-list contents.
pub open spec fn default_fields_spec() -> Seq<Seq<char>> {
    seq!["deleted_at"@, "updated_at"@]
}

/// The configured names of optional fields that receive the skip
/// annotation.
pub fn default_skip_fields() -> (r: Vec<&'static str>)
    ensures
        r.deep_view() == default_fields_spec(),
{
    let v: Vec<&'static str> = vec!["deleted_at", "updated_at"];
    proof {
        assert(v.deep_view() =~~= default_fields_spec());
    }
    v
}

fn blanks_exec(n: usize) -> (r: Vec<char>)
    ensures
        r@ == blanks(n as nat),
{
    let mut v: Vec<char> = Vec::new();
    let mut k: usize = 0;
    proof {
        assert(v@ =~= blanks(0));
    }
    while k < n
        invariant
            0 <= k <= n,
            v@ == blanks(k as nat),
        decreases n - k,
    {
        v.push(' ');
        proof {
            assert(v@ =~= blanks((k + 1) as nat));
        }
        k += 1;
    }
    v
}

fn field_pattern_exec(f: &str) -> (r: Vec<char>)
    ensures
        r@ == field_pattern(f@),
{
    let mut v = str_to_chars("pub ");
    push_str_chars(&mut v, f);
    push_str_chars(&mut v, ": Option<");
    v
}

fn line_matches_field_exec(l: &Vec<char>, fields: &[&str]) -> (r: bool)
    ensures
        r == line_matches_field(l@, fields.deep_view()),
{
    let mut j: usize = 0;
    while j < fields.len()
        invariant
            0 <= j <= fields@.len(),
            fields.deep_view().len() == fields@.len(),
            forall|k: int|
                0 <= k < j ==> !starts_with(
                    trim_start_spec(l@),
                    field_pattern(fields.deep_view()[k]),
                ),
        decreases fields@.len() - j,
    {
        let p = field_pattern_exec(fields[j]);
        proof {
            assert(fields.deep_view()[j as int] == fields@[j as int].deep_view());
        }
        if trimmed_starts_with(l, &p) {
            return true;
        }
        j += 1;
    }
    false
}

fn skip_attr_line_exec(indent: usize) -> (r: Vec<char>)
    ensures
        r@ == skip_attr_line(indent as nat),
{
    let mut v = blanks_exec(indent);
    push_str_chars(&mut v, "#[serde(skip_serializing_if = \"Option::is_none\")]");
    v
}

/// Insert the serialization-skip annotation above every optional field
/// whose name stands in `fields`, unless the line directly above
/// already carries one. The lines are rejoined with one newline each.
pub fn add_serde_skip_attributes(content: &str, fields: &[&str]) -> (r: String)
    ensures
        r@ == add_skip_spec(content@, fields.deep_view()),
{
    let cv = str_to_chars(content);
    let ls = lines_exec(&cv);
    let ghost lsv = ls.deep_view();
    let ghost fv = fields.deep_view();
    let mut out: Vec<Vec<char>> = Vec::new();
    let mut i: usize = 0;
    proof {
        assert(out.deep_view() =~= skip_upto(lsv, fv, 0));
    }
    while i < ls.len()
        invariant
            0 <= i <= ls@.len(),
            lsv == ls.deep_view(),
            lsv.len() == ls@.len(),
            lsv == lines_spec(content@),
            fv == fields.deep_view(),
            out.deep_view() == skip_upto(lsv, fv, i as int),
        decreases ls@.len() - i,
    {
        let ghost out0 = out.deep_view();
        let lv = &ls[i];
        proof {
            assert(lsv[i as int] == ls@[i as int].deep_view());
            assert(ls@[i as int].deep_view() =~= lv@);
        }
        let m = line_matches_field_exec(lv, fields);
        let mk = str_to_chars("skip_serializing_if");
        let prev_marked: bool;
        if i > 0 {
            let pv = &ls[i - 1];
            proof {
                assert(lsv[i - 1] == ls@[i - 1].deep_view());
                assert(ls@[i - 1].deep_view() =~= pv@);
            }
            prev_marked = contains_exec(pv, &mk);
        } else {
            prev_marked = false;
        }
        let inserted: bool = m && !prev_marked;
        if inserted {
            let ind = leading_blanks_exec(lv);
            let attr = skip_attr_line_exec(ind);
            out.push(attr);
        }
        out.push(subvec(lv, 0, lv.len()));
        proof {
            assert(inserted == ins_at(lsv, i as int, fv));
            assert(out.deep_view() =~~= out0 + contribution(lsv, i as int, fv));
            assert(skip_upto(lsv, fv, i + 1) == skip_upto(lsv, fv, i as int)
                + contribution(lsv, i as int, fv));
        }
        i += 1;
    }
    let joined = unlines_exec(&out);
    string_from_chars(&joined)
}

fn next_nonblank_exec(ls: &Vec<Vec<char>>, from: usize) -> (r: usize)
    requires
        from <= ls.deep_view().len(),
    ensures
        r as int == next_nonblank(ls.deep_view(), from as int),
        from <= r <= ls.deep_view().len(),
{
    let n = ls.len();
    let mut j: usize = from;
    while j < n
        invariant
            from <= j <= n,
            n == ls@.len(),
            ls.deep_view().len() == n,
            forall|m: int| from <= m < j ==> is_blank_line(#[trigger] ls.deep_view()[m]),
        decreases n - j,
    {
        let bl = all_blank_exec(&ls[j]);
        proof {
            assert(ls.deep_view()[j as int] == ls@[j as int].deep_view());
            assert(ls@[j as int].deep_view() =~= ls@[j as int]@);
        }
        if !bl {
            proof {
                lemma_next_nonblank_is(ls.deep_view(), from as int, j as int);
            }
            return j;
        }
        j += 1;
    }
    proof {
        lemma_next_nonblank_is(ls.deep_view(), from as int, n as int);
    }
    n
}

fn find_alias_insert_exec(ls: &Vec<Vec<char>>) -> (r: usize)
    ensures
        r as int == find_alias_insert(ls.deep_view(), 0),
        r <= ls.deep_view().len(),
{
    let n = ls.len();
    let ghost dv = ls.deep_view();
    let mut i: usize = 0;
    while i < n
        invariant
            0 <= i <= n,
            n == ls@.len(),
            dv == ls.deep_view(),
            dv.len() == n,
            forall|m: int| 0 <= m < i ==> !(#[trigger] alias_pair_at(dv, m)),
        decreases n - i,
    {
        let a = crate::parser_converter::is_table_attr_line_exec(&ls[i]);
        proof {
            assert(dv[i as int] == ls@[i as int].deep_view());
            assert(ls@[i as int].deep_view() =~= ls@[i as int]@);
        }
        if a {
            let j = next_nonblank_exec(ls, i + 1);
            let mut hit: bool = false;
            if j < n {
                let b = crate::parser_converter::is_struct_model_line_exec(&ls[j]);
                proof {
                    assert(dv[j as int] == ls@[j as int].deep_view());
                    assert(ls@[j as int].deep_view() =~= ls@[j as int]@);
                }
                hit = b;
            }
            if hit {
                proof {
                    assert(alias_pair_at(dv, i as int));
                    lemma_find_alias_insert_is(dv, 0, i as int);
                }
                return j;
            }
            proof {
                assert(!alias_pair_at(dv, i as int));
            }
        }
        i += 1;
    }
    proof {
        lemma_find_alias_insert_is(dv, 0, n as int);
    }
    n
}

/// Insert the schema-alias annotation for `table_name` directly above
/// the model declaration that follows the table annotation, unless
/// such an annotation already stands anywhere in the text or no such
/// pair of lines exists; in those cases, and on every byte but the one
/// inserted line, the text is returned unchanged.
pub fn add_schema_alias(content: &str, table_name: &str) -> (r: String)
    ensures
        r@ == add_alias_spec(content@, table_name@),
{
    let cv = str_to_chars(content);
    let mk = str_to_chars("#[schema(as = ");
    if contains_exec(&cv, &mk) {
        return content.to_owned();
    }
    let ls = lines_exec(&cv);
    let ghost lsv = ls.deep_view();
    let n = ls.len();
    proof {
        assert(lsv.len() == ls@.len());
    }
    let p = find_alias_insert_exec(&ls);
    proof {
        lemma_find_alias_insert_found(lsv, 0);
    }
    if p >= n {
        return content.to_owned();
    }
    let name = to_pascal_case(table_name);
    let ind = leading_blanks_exec(&ls[p]);
    proof {
        assert(lsv[p as int] == ls@[p as int].deep_view());
        assert(ls@[p as int].deep_view() =~= ls@[p as int]@);
    }
    let mut av = blanks_exec(ind);
    push_str_chars(&mut av, "#[schema(as = ");
    push_str_chars(&mut av, name.as_str());
    push_str_chars(&mut av, ")]");
    proof {
        assert(av@ == alias_line_for(
            leading_blanks(lsv[p as int]) as nat,
            pascal_of(table_name@),
        ));
    }
    let mut out: Vec<Vec<char>> = Vec::new();
    let mut j: usize = 0;
    proof {
        assert(out.deep_view() =~= lsv.take(0));
    }
    while j < p
        invariant
            0 <= j <= p < n,
            n == ls@.len(),
            lsv == ls.deep_view(),
            lsv.len() == n,
            out.deep_view() == lsv.take(j as int),
        decreases p - j,
    {
        let lv = &ls[j];
        proof {
            assert(lsv[j as int] == ls@[j as int].deep_view());
            assert(ls@[j as int].deep_view() =~= lv@);
        }
        let ghost out0 = out.deep_view();
        out.push(subvec(lv, 0, lv.len()));
        proof {
            assert(out.deep_view() =~~= out0.push(lsv[j as int]));
            assert(out.deep_view() =~= lsv.take(j + 1));
        }
        j += 1;
    }
    let ghost out1 = out.deep_view();
    out.push(av);
    proof {
        assert(out.deep_view() =~~= out1.push(alias_line_for(
            leading_blanks(lsv[p as int]) as nat,
            pascal_of(table_name@),
        )));
    }
    let ghost mid = out.deep_view();
    let mut k: usize = p;
    proof {
        assert(mid =~= lsv.take(p as int) + seq![
            alias_line_for(leading_blanks(lsv[p as int]) as nat, pascal_of(table_name@)),
        ]);
        assert(lsv.subrange(p as int, p as int) =~= Seq::<Seq<char>>::empty());
        assert(out.deep_view() =~= mid + lsv.subrange(p as int, p as int));
    }
    while k < n
        invariant
            p <= k <= n,
            n == ls@.len(),
            lsv == ls.deep_view(),
            lsv.len() == n,
            mid == lsv.take(p as int) + seq![
                alias_line_for(leading_blanks(lsv[p as int]) as nat, pascal_of(table_name@)),
            ],
            out.deep_view() == mid + lsv.subrange(p as int, k as int),
        decreases n - k,
    {
        let lv = &ls[k];
        proof {
            assert(lsv[k as int] == ls@[k as int].deep_view());
            assert(ls@[k as int].deep_view() =~= lv@);
        }
        let ghost out0 = out.deep_view();
        out.push(subvec(lv, 0, lv.len()));
        proof {
            assert(out.deep_view() =~~= out0.push(lsv[k as int]));
            assert(out.deep_view() =~= mid + lsv.subrange(p as int, k + 1));
        }
        k += 1;
    }
    proof {
        assert(lsv.subrange(p as int, n as int) =~= lsv.skip(p as int));
        assert(out.deep_view() =~= alias_lines(lsv, pascal_of(table_name@)));
    }
    let mut joined = unlines_exec(&out);
    let ends_nl: bool = cv.len() > 0 && cv[cv.len() - 1] == '\n';
    if !ends_nl {
        proof {
            assert(out.deep_view().len() > 0);
            crate::text::lemma_unlines_ends_newline(out.deep_view());
        }
        let ghost before = joined@;
        let _last = joined.pop();
        proof {
            assert(joined@ =~= before.take(before.len() - 1));
        }
    }
    string_from_chars(&joined)
}

// ---------------------------------------------------------------------
// Idempotence.
// ---------------------------------------------------------------------

/// Every listed optional-field line is directly preceded by a line
/// carrying the skip annotation. On such a line list the skip pass
/// inserts nothing.
pub open spec fn skip_stable(ls: Seq<Seq<char>>, fields: Seq<Seq<char>>) -> bool {
    forall|k: int|
        0 <= k < ls.len() && #[trigger] line_matches_field(ls[k], fields) ==> k > 0
            && has_marker(ls[k - 1])
}

proof fn lemma_leading_blanks_prefix(n: nat, t: Seq<char>)
    requires
        t.len() > 0,
        !crate::text::is_blank(t[0]),
    ensures
        leading_blanks(blanks(n) + t) == n,
        trim_start_spec(blanks(n) + t) == t,
    decreases n,
{
    let s = blanks(n) + t;
    if n == 0 {
        assert(s =~= t);
        assert(leading_blanks(t) == 0);
    } else {
        assert(s[0] == ' ');
        assert(s.skip(1) =~= blanks((n - 1) as nat) + t);
        lemma_leading_blanks_prefix((n - 1) as nat, t);
        assert(leading_blanks(s) == 1 + leading_blanks(s.skip(1)));
    }
    assert(trim_start_spec(s) =~= t);
}

/// The inserted skip-annotation line: it matches no field pattern, it
/// carries the marker, and it holds no newline.
proof fn lemma_attr_line_shape(n: nat)
    ensures
        forall|f: Seq<char>|
            !starts_with(trim_start_spec(skip_attr_line(n)), #[trigger] field_pattern(f)),
        has_marker(skip_attr_line(n)),
        forall|j: int|
            0 <= j < skip_attr_line(n).len() ==> #[trigger] skip_attr_line(n)[j] != '\n',
{
    reveal_strlit("#[serde(skip_serializing_if = \"Option::is_none\")]");
    reveal_strlit("skip_serializing_if");
    reveal_strlit("pub ");
    let txt = skip_attr_text();
    assert(txt[0] == '#');
    lemma_leading_blanks_prefix(n, txt);
    assert forall|f: Seq<char>|
        !starts_with(trim_start_spec(skip_attr_line(n)), #[trigger] field_pattern(f)) by {
        let pat = field_pattern(f);
        assert(pat[0] == 'p');
        if starts_with(txt, pat) {
            assert(txt.subrange(0, pat.len() as int)[0] == pat[0]);
        }
    }
    assert(txt.subrange(8, 27) =~= skip_marker());
    assert(matches_at(txt, 8, skip_marker()));
    crate::text::lemma_matches_concat_r(blanks(n), txt, 8, skip_marker());
    assert(matches_at(skip_attr_line(n), n as int + 8, skip_marker()));
    assert forall|j: int|
        0 <= j < skip_attr_line(n).len() implies #[trigger] skip_attr_line(n)[j]
        != '\n' by {
        if j < n {
            assert(skip_attr_line(n)[j] == ' ');
        } else {
            assert(skip_attr_line(n)[j] == txt[j - n]);
        }
    }
}

/// The inserted schema-alias line: it matches no field pattern, it
/// carries the schema marker, and it holds no newline when the name
/// holds none.
proof fn lemma_alias_line_shape(n: nat, name: Seq<char>)
    requires
        forall|j: int| 0 <= j < name.len() ==> name[j] != '\n',
    ensures
        forall|f: Seq<char>|
            !starts_with(
                trim_start_spec(alias_line_for(n, name)),
                #[trigger] field_pattern(f),
            ),
        contains_seq(alias_line_for(n, name), schema_marker()),
        forall|j: int|
            0 <= j < alias_line_for(n, name).len() ==> #[trigger] alias_line_for(
                n,
                name,
            )[j] != '\n',
{
    reveal_strlit("#[schema(as = ");
    reveal_strlit(")]");
    reveal_strlit("pub ");
    let t = "#[schema(as = "@ + name + ")]"@;
    assert(alias_line_for(n, name) =~= blanks(n) + t);
    assert(t[0] == '#');
    lemma_leading_blanks_prefix(n, t);
    assert forall|f: Seq<char>|
        !starts_with(
            trim_start_spec(alias_line_for(n, name)),
            #[trigger] field_pattern(f),
        ) by {
        let pat = field_pattern(f);
        assert(pat[0] == 'p');
        if starts_with(t, pat) {
            assert(t.subrange(0, pat.len() as int)[0] == pat[0]);
        }
    }
    assert(t.subrange(0, 14) =~= schema_marker());
    assert(matches_at(t, 0, schema_marker()));
    crate::text::lemma_matches_concat_r(blanks(n), t, 0, schema_marker());
    assert(matches_at(alias_line_for(n, name), n as int, schema_marker()));
    assert forall|j: int|
        0 <= j < alias_line_for(n, name).len() implies #[trigger] alias_line_for(
            n,
            name,
        )[j] != '\n' by {
        if j < n {
            assert(alias_line_for(n, name)[j] == ' ');
        } else {
            let q = j - n;
            assert(alias_line_for(n, name)[j] == t[q]);
            if q < 14 {
                assert(t[q] == "#[schema(as = "@[q]);
            } else if q < 14 + name.len() {
                assert(t[q] == name[q - 14]);
            } else {
                assert(t[q] == ")]"@[q - 14 - name.len()]);
            }
        }
    }
}

/// A model declaration line never matches the configured field list.
proof fn lemma_struct_not_field(l: Seq<char>)
    requires
        is_struct_model_line(l),
    ensures
        !line_matches_field(l, default_fields_spec()),
{
    reveal_strlit("pub struct Model");
    reveal_strlit("pub ");
    reveal_strlit(": Option<");
    reveal_strlit("deleted_at");
    reveal_strlit("updated_at");
    let t = trim_start_spec(l);
    if line_matches_field(l, default_fields_spec()) {
        let j = choose|j: int|
            0 <= j < default_fields_spec().len() && starts_with(
                t,
                field_pattern(default_fields_spec()[j]),
            );
        let f = default_fields_spec()[j];
        let pat = field_pattern(f);
        assert(f.len() == 10);
        assert(pat.len() == 23);
        assert(t.subrange(0, 23)[4] == pat[4]);
        assert(pat[4] == f[0]);
        assert(t.subrange(0, 16)[4] == "pub struct Model"@[4]);
        assert(t[4] == 's');
        assert(f[0] == 'd' || f[0] == 'u');
        assert(false);
    }
}

/// The skip pass yields a stable line list ending with the last input
/// line.
proof fn lemma_skip_upto_stable(ls: Seq<Seq<char>>, fields: Seq<Seq<char>>, i: int)
    requires
        0 <= i <= ls.len(),
    ensures
        skip_upto(ls, fields, i).len() >= i,
        i > 0 ==> skip_upto(ls, fields, i).len() > 0 && skip_upto(ls, fields, i)[skip_upto(
            ls,
            fields,
            i,
        ).len() - 1] == ls[i - 1],
        skip_stable(skip_upto(ls, fields, i), fields),
    decreases i,
{
    if i > 0 {
        lemma_skip_upto_stable(ls, fields, i - 1);
        let prev = skip_upto(ls, fields, i - 1);
        let c = contribution(ls, i - 1, fields);
        let o = skip_upto(ls, fields, i);
        assert(o == prev + c);
        if ins_at(ls, i - 1, fields) {
            lemma_attr_line_shape(leading_blanks(ls[i - 1]));
            let attr = skip_attr_line(leading_blanks(ls[i - 1]));
            assert(o[prev.len() as int] == attr);
            assert(o[prev.len() as int + 1] == ls[i - 1]);
            assert forall|k: int|
                0 <= k < o.len() && #[trigger] line_matches_field(o[k], fields)
                implies k > 0 && has_marker(o[k - 1]) by {
                if k < prev.len() {
                    assert(o[k] == prev[k]);
                    assert(k > 0 && has_marker(prev[k - 1]));
                    assert(o[k - 1] == prev[k - 1]);
                } else if k == prev.len() {
                    assert(o[k] == attr);
                    assert(!line_matches_field(attr, fields));
                } else {
                    assert(o[k] == ls[i - 1]);
                    assert(o[k - 1] == attr);
                    assert(has_marker(attr));
                }
            }
        } else {
            assert(c =~= seq![ls[i - 1]]);
            assert(o[prev.len() as int] == ls[i - 1]);
            assert forall|k: int|
                0 <= k < o.len() && #[trigger] line_matches_field(o[k], fields)
                implies k > 0 && has_marker(o[k - 1]) by {
                if k < prev.len() {
                    assert(o[k] == prev[k]);
                    assert(k > 0 && has_marker(prev[k - 1]));
                    assert(o[k - 1] == prev[k - 1]);
                } else {
                    assert(o[k] == ls[i - 1]);
                    assert(line_matches_field(ls[i - 1], fields));
                    assert(!ins_at(ls, i - 1, fields));
                    assert(i - 1 > 0 && has_marker(ls[i - 2]));
                    assert(prev.len() >= i - 1 >= 1);
                    assert(o[k - 1] == prev[prev.len() - 1]);
                    assert(prev[prev.len() - 1] == ls[i - 2]);
                }
            }
        }
    }
}

/// On a stable line list the skip pass is the identity.
proof fn lemma_skip_stable_fixed(ls: Seq<Seq<char>>, fields: Seq<Seq<char>>, i: int)
    requires
        0 <= i <= ls.len(),
        skip_stable(ls, fields),
    ensures
        skip_upto(ls, fields, i) == ls.take(i),
    decreases i,
{
    if i > 0 {
        lemma_skip_stable_fixed(ls, fields, i - 1);
        assert(!ins_at(ls, i - 1, fields));
        assert(contribution(ls, i - 1, fields) =~= seq![ls[i - 1]]);
        assert(ls.take(i - 1) + seq![ls[i - 1]] =~= ls.take(i));
    }
}

/// The skip pass keeps every line free of newlines.
proof fn lemma_skip_upto_clean(ls: Seq<Seq<char>>, fields: Seq<Seq<char>>, i: int)
    requires
        0 <= i <= ls.len(),
        crate::text::lines_clean(ls),
    ensures
        crate::text::lines_clean(skip_upto(ls, fields, i)),
    decreases i,
{
    if i > 0 {
        lemma_skip_upto_clean(ls, fields, i - 1);
        let prev = skip_upto(ls, fields, i - 1);
        let o = skip_upto(ls, fields, i);
        lemma_attr_line_shape(leading_blanks(ls[i - 1]));
        assert forall|k: int, j: int|
            0 <= k < o.len() && 0 <= j < o[k].len() implies o[k][j] != '\n' by {
            if k < prev.len() {
                assert(o[k] == prev[k]);
            } else if ins_at(ls, i - 1, fields) && k == prev.len() {
                assert(o[k] == skip_attr_line(leading_blanks(ls[i - 1])));
            } else {
                assert(o[k] == ls[i - 1]);
            }
        }
    }
}

/// Running both post-processing passes a second time changes nothing:
/// the post-processor is idempotent on every file content. The file
/// stem must hold no newline, as a stem with one could smuggle a new
/// field declaration into the inserted schema line.
pub proof fn lemma_post_process_idempotent(content: Seq<char>, stem: Seq<char>)
    requires
        forall|j: int| 0 <= j < stem.len() ==> stem[j] != '\n',
    ensures
        process_spec(
            process_spec(content, stem, default_fields_spec()),
            stem,
            default_fields_spec(),
        ) == process_spec(content, stem, default_fields_spec()),
{
    let ff = default_fields_spec();
    let ll = lines_spec(content);
    let oo = skip_all(ll, ff);
    let y1 = unlines(oo);
    crate::text::lemma_lines_spec_clean(content);
    lemma_skip_upto_clean(ll, ff, ll.len() as int);
    crate::text::lemma_lines_unlines(oo);
    lemma_skip_upto_stable(ll, ff, ll.len() as int);
    lemma_skip_stable_fixed(oo, ff, oo.len() as int);
    assert(oo.take(oo.len() as int) =~= oo);
    assert(add_skip_spec(y1, ff) == y1);
    let y = add_alias_spec(y1, stem);
    if contains_seq(y1, schema_marker()) {
        assert(y == y1);
        assert(process_spec(y, stem, ff) == y);
    } else {
        let p = find_alias_insert(oo, 0);
        if p >= oo.len() {
            assert(y == y1);
            assert(process_spec(y, stem, ff) == y);
        } else {
            lemma_find_alias_insert_found(oo, 0);
            crate::text::lemma_unlines_ends_newline(oo);
            let name = pascal_of(stem);
            crate::names::lemma_pascal_no_newline(stem);
            let ind = leading_blanks(oo[p as int]);
            let a = alias_line_for(ind, name);
            lemma_alias_line_shape(ind, name);
            let op = alias_lines(oo, name);
            assert(y == unlines(op));
            assert(op.len() == oo.len() + 1);
            // the inserted list is clean
            assert forall|k: int, j: int|
                0 <= k < op.len() && 0 <= j < op[k].len() implies op[k][j] != '\n' by {
                if k < p {
                    assert(op[k] == oo[k]);
                } else if k == p {
                    assert(op[k] == a);
                } else {
                    assert(op[k] == oo[k - 1]);
                }
            }
            crate::text::lemma_lines_unlines(op);
            // the inserted list is stable
            lemma_struct_not_field(oo[p as int]);
            assert forall|k: int|
                0 <= k < op.len() && #[trigger] line_matches_field(op[k], ff)
                implies k > 0 && has_marker(op[k - 1]) by {
                if k < p {
                    assert(op[k] == oo[k]);
                    assert(k > 0 && has_marker(oo[k - 1]));
                    assert(op[k - 1] == oo[k - 1]);
                } else if k == p {
                    assert(op[k] == a);
                    assert(!line_matches_field(a, ff));
                } else if k == p + 1 {
                    assert(op[k] == oo[p as int]);
                    assert(!line_matches_field(oo[p as int], ff));
                } else {
                    assert(op[k] == oo[k - 1]);
                    assert(k - 1 > 0 && has_marker(oo[k - 2]));
                    assert(op[k - 1] == oo[k - 2]);
                }
            }
            lemma_skip_stable_fixed(op, ff, op.len() as int);
            assert(op.take(op.len() as int) =~= op);
            assert(add_skip_spec(y, ff) == y);
            crate::text::lemma_unlines_contains(op, p as int, schema_marker());
            assert(contains_seq(y, schema_marker()));
            assert(process_spec(y, stem, ff) == y);
        }
    }
}

/// One post-processing step over the text of a model file: the
/// skip-annotation pass, then the schema-alias pass named after
/// `file_stem`.
pub fn process_entity_source(content: &str, file_stem: &str, fields: &[&str]) -> (r:
    String)
    ensures
        r@ == process_spec(content@, file_stem@, fields.deep_view()),
{
    let a = add_serde_skip_attributes(content, fields);
    add_schema_alias(a.as_str(), file_stem)
}

} // verus!
