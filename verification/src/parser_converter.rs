//! The model parser: reads the text of a source file declaring a single
//! `Model` struct, line by line, and extracts the table name, the
//! declared fields in declaration order, and the primary-key field.
//!
//! The declaration grammar accepted here is line-based:
//! - a header line whose trimmed form starts with `pub struct Model`;
//! - body lines up to a closing `}` line, each either blank, a `//`
//!   comment, a single-line `#[...]` attribute, or a field
//!   `pub <name>: <type>,`;
//! - an optional `#[sea_orm(table_name = "...")]` line above the header
//!   naming the table; absent that, the file's base name is used.
use crate::errors::GenError;
use crate::names::pascal_of;
use crate::names::to_pascal_case;
use crate::table_structs::ColumnInfo;
use crate::table_structs::ColumnSpec;
use crate::table_structs::EntityInfo;
use crate::table_structs::PrimaryKeyInfo;
use crate::table_structs::PrimaryKeySpec;
use crate::text::all_blank;
use crate::text::all_blank_exec;
use crate::text::concat_strs;
use crate::text::contains_exec;
use crate::text::contains_seq;
use crate::text::first_index_exec;
use crate::text::first_index_of;
use crate::text::leading_blanks_exec;
use crate::text::lemma_first_index_of;
use crate::text::lemma_leading_blanks_le;
use crate::text::lines_exec;
use crate::text::lines_spec;
use crate::text::matches_at;
use crate::text::matches_at_exec;
use crate::text::split_on;
use crate::text::split_on_exec;
use crate::text::starts_with;
use crate::text::str_to_chars;
use crate::text::string_from_chars;
use crate::text::subvec;
use crate::text::trim_exec;
use crate::text::trim_spec;
use crate::text::trim_start_spec;
use crate::text::trimmed_starts_with;
use vstd::prelude::*;

verus! {

// ---------------------------------------------------------------------
// Line classification.
// ---------------------------------------------------------------------

/// The line declaring the model struct.
pub open spec fn is_struct_model_line(l: Seq<char>) -> bool {
    starts_with(trim_start_spec(l), "pub struct Model"@)
}

/// The line closing the struct body: `}` alone up to blanks.
pub open spec fn is_close_line(l: Seq<char>) -> bool {
    let t = trim_start_spec(l);
    t.len() >= 1 && t[0] == '}' && all_blank(t.skip(1))
}

/// A line holding only blanks.
pub open spec fn is_blank_line(l: Seq<char>) -> bool {
    all_blank(l)
}

/// A `//` comment line.
pub open spec fn is_comment_line(l: Seq<char>) -> bool {
    starts_with(trim_start_spec(l), "//"@)
}

/// A line opening an attribute.
pub open spec fn is_attr_start(l: Seq<char>) -> bool {
    starts_with(trim_start_spec(l), "#["@)
}

/// A single-line attribute: opens with `#[` and closes with `]`.
pub open spec fn is_wf_attr_line(l: Seq<char>) -> bool {
    is_attr_start(l) && trim_spec(l).len() >= 1 && trim_spec(l)[trim_spec(l).len() - 1]
        == ']'
}

/// An attribute line carrying the primary-key marker.
pub open spec fn is_pk_attr_line(l: Seq<char>) -> bool {
    starts_with(trim_start_spec(l), "#[sea_orm("@) && contains_seq(l, "primary_key"@)
}

/// A line opening a field declaration.
pub open spec fn is_field_start(l: Seq<char>) -> bool {
    starts_with(trim_start_spec(l), "pub "@)
}

/// The field name declared on `l`: what stands between `pub ` and the
/// first `:`, trimmed.
pub open spec fn field_name_spec(l: Seq<char>) -> Seq<char> {
    let t = trim_start_spec(l);
    let c = first_index_of(t, ':') as int;
    trim_spec(t.subrange(4, c))
}

/// The raw type text declared on `l`: what follows the first `:`,
/// trimmed, with one trailing comma removed.
pub open spec fn field_rawtype_spec(l: Seq<char>) -> Seq<char> {
    let t = trim_start_spec(l);
    let c = first_index_of(t, ':') as int;
    let u = trim_spec(t.subrange(c + 1, t.len() as int));
    if u.len() > 0 && u[u.len() - 1] == ',' {
        trim_spec(u.drop_last())
    } else {
        u
    }
}

/// A field line is valid when it has a `:` and a nonempty name.
pub open spec fn field_valid(l: Seq<char>) -> bool {
    let t = trim_start_spec(l);
    first_index_of(t, ':') < t.len() && field_name_spec(l).len() > 0
}

// ---------------------------------------------------------------------
// Type tag extraction.
// ---------------------------------------------------------------------

/// A character that may appear in a type path outside its generic
/// arguments.
pub open spec fn is_path_char(c: char) -> bool {
    let u = c as u32;
    (48 <= u && u <= 57) || (65 <= u && u <= 90) || (97 <= u && u <= 122) || c == '_'
        || c == ':'
}

/// The last path segment of a declared type, with generic arguments
/// ignored: `Option<String>` yields `Option`, `prelude::Uuid` yields
/// `Uuid`. Text that does not look like a type path yields `Unknown`.
pub open spec fn extract_type_spec(t: Seq<char>) -> Seq<char> {
    let u = trim_spec(t);
    let h = trim_spec(u.take(first_index_of(u, '<') as int));
    if h.len() == 0 {
        "Unknown"@
    } else if exists|j: int| 0 <= j < h.len() && !is_path_char(h[j]) {
        "Unknown"@
    } else {
        let segs = split_on(h, ':');
        if segs[segs.len() - 1].len() == 0 {
            "Unknown"@
        } else {
            segs[segs.len() - 1]
        }
    }
}

/// The last path segment of a declared type, ignoring generic and
/// lifetime arguments; `Unknown` for text that is no type path.
pub fn extract_type(ty: &str) -> (r: String)
    ensures
        r@ == extract_type_spec(ty@),
{
    let tv = str_to_chars(ty);
    let r = extract_type_vec(&tv);
    string_from_chars(&r)
}

fn extract_type_vec(tv: &Vec<char>) -> (r: Vec<char>)
    ensures
        r@ == extract_type_spec(tv@),
{
    let u = trim_exec(tv);
    let lt = first_index_exec(&u, '<');
    proof {
        lemma_first_index_of(u@, '<');
    }
    let head = subvec(&u, 0, lt);
    let h = trim_exec(&head);
    proof {
        assert(h@ == trim_spec(u@.take(lt as int)));
    }
    if h.len() == 0 {
        return str_to_chars("Unknown");
    }
    let mut j: usize = 0;
    while j < h.len()
        invariant
            0 <= j <= h@.len(),
            h@ == trim_spec(trim_spec(tv@).take(
                first_index_of(trim_spec(tv@), '<') as int,
            )),
            h@.len() > 0,
            forall|k: int| 0 <= k < j ==> is_path_char(h@[k]),
        decreases h@.len() - j,
    {
        let c = h[j];
        let cu: u32 = c as u32;
        if !((48 <= cu && cu <= 57) || (65 <= cu && cu <= 90) || (97 <= cu && cu <= 122)
            || c == '_' || c == ':') {
            proof {
                assert(!is_path_char(h@[j as int]));
            }
            return str_to_chars("Unknown");
        }
        j += 1;
    }
    let segs = split_on_exec(&h, ':');
    proof {
        crate::text::lemma_split_on_len(h@, ':');
        assert(segs.deep_view().len() == segs@.len());
    }
    let last = &segs[segs.len() - 1];
    proof {
        assert(segs.deep_view()[segs@.len() - 1] == segs@[segs@.len() - 1].deep_view());
        assert(segs@[segs@.len() - 1].deep_view() =~= last@);
    }
    if last.len() == 0 {
        return str_to_chars("Unknown");
    }
    subvec(last, 0, last.len())
}

// ---------------------------------------------------------------------
// The parse, as a specification.
// ---------------------------------------------------------------------

/// One parsed field: name, extracted type tag, and whether a
/// primary-key marker stood among the attributes above it.
pub struct FieldSpec {
    pub name: Seq<char>,
    pub rust_type: Seq<char>,
    pub pk: bool,
}

/// The field parsed from line `l`.
pub open spec fn field_spec_of(l: Seq<char>, pk: bool) -> FieldSpec {
    FieldSpec {
        name: field_name_spec(l),
        rust_type: extract_type_spec(field_rawtype_spec(l)),
        pk,
    }
}

/// The fields declared from `body[i]` on, given whether a primary-key
/// marker is pending; `None` when a line violates the grammar.
pub open spec fn fields_from(body: Seq<Seq<char>>, i: int, pending: bool) -> Option<
    Seq<FieldSpec>,
>
    decreases body.len() - i,
{
    if i < 0 || i >= body.len() {
        Option::Some(Seq::empty())
    } else {
        let l = body[i];
        if is_blank_line(l) || is_comment_line(l) {
            fields_from(body, i + 1, pending)
        } else if is_attr_start(l) {
            if is_wf_attr_line(l) {
                fields_from(body, i + 1, pending || is_pk_attr_line(l))
            } else {
                Option::None
            }
        } else if is_field_start(l) {
            if field_valid(l) {
                match fields_from(body, i + 1, false) {
                    Option::Some(rest) => Option::Some(
                        seq![field_spec_of(l, pending)] + rest,
                    ),
                    Option::None => Option::None,
                }
            } else {
                Option::None
            }
        } else {
            Option::None
        }
    }
}

/// Index of the last field carrying the primary-key marker, or -1.
pub open spec fn pk_index(fs: Seq<FieldSpec>) -> int
    decreases fs.len(),
{
    if fs.len() == 0 {
        -1
    } else if fs[fs.len() - 1].pk {
        fs.len() - 1
    } else {
        pk_index(fs.drop_last())
    }
}

pub proof fn lemma_pk_index(fs: Seq<FieldSpec>)
    ensures
        -1 <= pk_index(fs) < fs.len(),
        pk_index(fs) >= 0 ==> fs[pk_index(fs)].pk,
        pk_index(fs) == -1 ==> forall|k: int| 0 <= k < fs.len() ==> !fs[k].pk,
    decreases fs.len(),
{
    if fs.len() > 0 && !fs[fs.len() - 1].pk {
        lemma_pk_index(fs.drop_last());
        assert forall|k: int|
            pk_index(fs) == -1 && 0 <= k < fs.len() implies !fs[k].pk by {
            if k < fs.len() - 1 {
                assert(fs.drop_last()[k] == fs[k]);
            }
        }
    }
}

/// First line at or after `i` that declares the model struct, or
/// `ls.len()`.
pub open spec fn find_header(ls: Seq<Seq<char>>, i: int) -> int
    decreases ls.len() - i,
{
    if i < 0 || i >= ls.len() {
        ls.len() as int
    } else if is_struct_model_line(ls[i]) {
        i
    } else {
        find_header(ls, i + 1)
    }
}

pub proof fn lemma_find_header_is(ls: Seq<Seq<char>>, i: int, k: int)
    requires
        0 <= i <= k <= ls.len(),
        forall|j: int| i <= j < k ==> !is_struct_model_line(ls[j]),
        k < ls.len() ==> is_struct_model_line(ls[k]),
    ensures
        find_header(ls, i) == if k < ls.len() {
            k
        } else {
            ls.len() as int
        },
    decreases k - i,
{
    if i < k {
        lemma_find_header_is(ls, i + 1, k);
    }
}

/// First line at or after `i` that closes the struct body, or
/// `ls.len()`.
pub open spec fn find_close(ls: Seq<Seq<char>>, i: int) -> int
    decreases ls.len() - i,
{
    if i < 0 || i >= ls.len() {
        ls.len() as int
    } else if is_close_line(ls[i]) {
        i
    } else {
        find_close(ls, i + 1)
    }
}

pub proof fn lemma_find_close_is(ls: Seq<Seq<char>>, i: int, k: int)
    requires
        0 <= i <= k <= ls.len(),
        forall|j: int| i <= j < k ==> !is_close_line(ls[j]),
        k < ls.len() ==> is_close_line(ls[k]),
    ensures
        find_close(ls, i) == if k < ls.len() {
            k
        } else {
            ls.len() as int
        },
    decreases k - i,
{
    if i < k {
        lemma_find_close_is(ls, i + 1, k);
    }
}

/// The table-name annotation prefix.
pub open spec fn table_prefix() -> Seq<char> {
    "#[sea_orm(table_name = \""@
}

/// A line annotating the table name: the prefix, a nonempty name
/// without quotes, and the closing `")]` up to blanks.
pub open spec fn is_table_attr_line(l: Seq<char>) -> bool {
    let t = trim_start_spec(l);
    starts_with(t, table_prefix()) && {
        let rest = t.skip(table_prefix().len() as int);
        let q = first_index_of(rest, '"') as int;
        q > 0 && matches_at(rest, q, "\")]"@) && all_blank(rest.skip(q + 3))
    }
}

/// The table name carried by a table-name annotation line.
pub open spec fn table_attr_name(l: Seq<char>) -> Seq<char> {
    let t = trim_start_spec(l);
    let rest = t.skip(table_prefix().len() as int);
    rest.take(first_index_of(rest, '"') as int)
}

/// First line in `[i, end)` annotating the table name, or `end`.
pub open spec fn find_table_attr(ls: Seq<Seq<char>>, i: int, end: int) -> int
    decreases end - i,
{
    if i < 0 || i >= end {
        end
    } else if is_table_attr_line(ls[i]) {
        i
    } else {
        find_table_attr(ls, i + 1, end)
    }
}

pub proof fn lemma_find_table_attr_is(ls: Seq<Seq<char>>, i: int, end: int, k: int)
    requires
        0 <= i <= k <= end,
        forall|j: int| i <= j < k ==> !is_table_attr_line(ls[j]),
        k < end ==> is_table_attr_line(ls[k]),
    ensures
        find_table_attr(ls, i, end) == if k < end {
            k
        } else {
            end
        },
    decreases k - i,
{
    if i < k {
        lemma_find_table_attr_is(ls, i + 1, end, k);
    }
}

pub proof fn lemma_find_table_attr_found(ls: Seq<Seq<char>>, i: int, end: int)
    requires
        0 <= i <= end,
    ensures
        i <= find_table_attr(ls, i, end) <= end,
        find_table_attr(ls, i, end) < end ==> is_table_attr_line(
            ls[find_table_attr(ls, i, end)],
        ),
    decreases end - i,
{
    if i < end && !is_table_attr_line(ls[i]) {
        lemma_find_table_attr_found(ls, i + 1, end);
    }
}

/// The table name of the model: the first annotation line above the
/// header, or the file's base name.
pub open spec fn table_name_spec(ls: Seq<Seq<char>>, h: int, stem: Seq<char>) -> Seq<
    char,
> {
    let k = find_table_attr(ls, 0, h);
    if k < h {
        table_attr_name(ls[k])
    } else {
        stem
    }
}

/// The column derived from a parsed field.
pub open spec fn column_of(f: FieldSpec) -> ColumnSpec {
    ColumnSpec { name: f.name, rust_type: f.rust_type }
}

/// The primary key derived from a parsed field.
pub open spec fn pk_of(f: FieldSpec) -> PrimaryKeySpec {
    PrimaryKeySpec { name: f.name, rust_type: f.rust_type }
}

/// The columns derived from the parsed fields, in declaration order.
pub open spec fn columns_of(fs: Seq<FieldSpec>) -> Seq<ColumnSpec> {
    fs.map_values(|f: FieldSpec| column_of(f))
}

/// The message reported when a model has no primary key.
pub open spec fn missing_pk_message(stem: Seq<char>) -> Seq<char> {
    "No primary key found in "@ + stem
}

/// The message reported when the source violates the grammar.
pub open spec fn parse_error_message(stem: Seq<char>) -> Seq<char> {
    "invalid model declaration in "@ + stem
}

/// The outcome the parser owes for a given source text.
pub enum ParseSpec {
    Entity(crate::table_structs::EntitySpec),
    MissingPk,
    Malformed,
}

/// What parsing `content` (from a file with base name `stem`) yields:
/// the extracted entity, a missing-primary-key failure, or a grammar
/// failure. A text without a model header counts as missing its
/// primary key, since no field carries the marker.
pub open spec fn parse_spec(content: Seq<char>, stem: Seq<char>) -> ParseSpec {
    let ls = lines_spec(content);
    let h = find_header(ls, 0);
    if h >= ls.len() {
        ParseSpec::MissingPk
    } else {
        let c = find_close(ls, h + 1);
        if c >= ls.len() {
            ParseSpec::Malformed
        } else {
            let body = ls.subrange(h + 1, c);
            match fields_from(body, 0, false) {
                Option::None => ParseSpec::Malformed,
                Option::Some(fs) => if pk_index(fs) < 0 {
                    ParseSpec::MissingPk
                } else {
                    let tn = table_name_spec(ls, h, stem);
                    ParseSpec::Entity(
                        crate::table_structs::EntitySpec {
                            table_name: tn,
                            struct_name: pascal_of(tn),
                            primary_key: pk_of(fs[pk_index(fs)]),
                            columns: columns_of(fs),
                        },
                    )
                },
            }
        }
    }
}

/// A successfully parsed entity lists one column per declared field,
/// in declaration order, and its struct name is the PascalCase form of
/// its table name.
pub proof fn lemma_parse_entity_shape(content: Seq<char>, stem: Seq<char>)
    ensures
        parse_spec(content, stem) matches ParseSpec::Entity(es) ==> ({
            let ls = lines_spec(content);
            let h = find_header(ls, 0);
            let body = ls.subrange(h + 1, find_close(ls, h + 1));
            match fields_from(body, 0, false) {
                Option::Some(fs) => es.columns.len() == fs.len() && (forall|i: int|
                    0 <= i < fs.len() ==> es.columns[i] == column_of(fs[i]))
                    && es.struct_name == pascal_of(es.table_name),
                Option::None => false,
            }
        }),
{
    let ls = lines_spec(content);
    let h = find_header(ls, 0);
    if h < ls.len() {
        let c = find_close(ls, h + 1);
        if c < ls.len() {
            let body = ls.subrange(h + 1, c);
            match fields_from(body, 0, false) {
                Option::Some(fs) => {
                    if pk_index(fs) >= 0 {
                        assert(columns_of(fs).len() == fs.len());
                        assert forall|i: int| 0 <= i < fs.len() implies columns_of(
                            fs,
                        )[i] == column_of(fs[i]) by {}
                    }
                },
                Option::None => {},
            }
        }
    }
}

/// A model none of whose fields carries the primary-key marker fails
/// with the missing-primary-key outcome; so does a text without a
/// model declaration at all.
pub proof fn lemma_parse_missing_pk(content: Seq<char>, stem: Seq<char>)
    ensures
        find_header(lines_spec(content), 0) >= lines_spec(content).len()
            ==> parse_spec(content, stem) == ParseSpec::MissingPk,
        ({
            let ls = lines_spec(content);
            let h = find_header(ls, 0);
            let c = find_close(ls, h + 1);
            h < ls.len() && c < ls.len() ==> match fields_from(
                ls.subrange(h + 1, c),
                0,
                false,
            ) {
                Option::Some(fs) => (forall|i: int|
                    0 <= i < fs.len() ==> !(#[trigger] fs[i].pk)) ==> parse_spec(
                    content,
                    stem,
                ) == ParseSpec::MissingPk,
                Option::None => true,
            }
        }),
{
    let ls = lines_spec(content);
    let h = find_header(ls, 0);
    if h < ls.len() {
        let c = find_close(ls, h + 1);
        if c < ls.len() {
            match fields_from(ls.subrange(h + 1, c), 0, false) {
                Option::Some(fs) => {
                    lemma_pk_index(fs);
                },
                Option::None => {},
            }
        }
    }
}

// ---------------------------------------------------------------------
// Executable line classifiers.
// ---------------------------------------------------------------------

pub(crate) fn is_struct_model_line_exec(l: &Vec<char>) -> (r: bool)
    ensures
        r == is_struct_model_line(l@),
{
    let p = str_to_chars("pub struct Model");
    trimmed_starts_with(l, &p)
}

fn is_close_line_exec(l: &Vec<char>) -> (r: bool)
    ensures
        r == is_close_line(l@),
{
    let lb = leading_blanks_exec(l);
    proof {
        lemma_leading_blanks_le(l@);
    }
    if lb >= l.len() {
        assert(trim_start_spec(l@).len() == 0);
        return false;
    }
    proof {
        assert(trim_start_spec(l@)[0] == l@[lb as int]);
    }
    if l[lb] != '}' {
        return false;
    }
    let restv = subvec(l, lb + 1, l.len());
    proof {
        assert(trim_start_spec(l@).skip(1) =~= restv@);
    }
    all_blank_exec(&restv)
}

fn is_comment_line_exec(l: &Vec<char>) -> (r: bool)
    ensures
        r == is_comment_line(l@),
{
    let p = str_to_chars("//");
    trimmed_starts_with(l, &p)
}

fn is_attr_start_exec(l: &Vec<char>) -> (r: bool)
    ensures
        r == is_attr_start(l@),
{
    let p = str_to_chars("#[");
    trimmed_starts_with(l, &p)
}

fn is_wf_attr_line_exec(l: &Vec<char>) -> (r: bool)
    ensures
        r == is_wf_attr_line(l@),
{
    if !is_attr_start_exec(l) {
        return false;
    }
    let t = trim_exec(l);
    t.len() >= 1 && t[t.len() - 1] == ']'
}

fn is_pk_attr_line_exec(l: &Vec<char>) -> (r: bool)
    ensures
        r == is_pk_attr_line(l@),
{
    let p = str_to_chars("#[sea_orm(");
    if !trimmed_starts_with(l, &p) {
        return false;
    }
    let m = str_to_chars("primary_key");
    contains_exec(l, &m)
}

fn is_field_start_exec(l: &Vec<char>) -> (r: bool)
    ensures
        r == is_field_start(l@),
{
    let p = str_to_chars("pub ");
    trimmed_starts_with(l, &p)
}

pub(crate) fn is_table_attr_line_exec(l: &Vec<char>) -> (r: bool)
    ensures
        r == is_table_attr_line(l@),
{
    let p = str_to_chars("#[sea_orm(table_name = \"");
    let lb = leading_blanks_exec(l);
    proof {
        lemma_leading_blanks_le(l@);
    }
    let ghost t = trim_start_spec(l@);
    let n: usize = l.len();
    if !matches_at_exec(l, lb, &p) {
        proof {
            if starts_with(t, table_prefix()) {
                assert(t.subrange(0, table_prefix().len() as int) =~= l@.subrange(
                    lb as int,
                    lb + table_prefix().len(),
                ));
            }
        }
        return false;
    }
    proof {
        assert(t.subrange(0, table_prefix().len() as int) =~= l@.subrange(
            lb as int,
            lb + table_prefix().len(),
        ));
        assert(starts_with(t, table_prefix()));
    }
    let rest = subvec(l, lb + p.len(), n);
    proof {
        assert(rest@ =~= t.skip(table_prefix().len() as int));
    }
    let rn: usize = rest.len();
    let q = first_index_exec(&rest, '"');
    proof {
        lemma_first_index_of(rest@, '"');
    }
    if q == 0 {
        return false;
    }
    let cp = str_to_chars("\")]");
    proof {
        reveal_strlit("\")]");
        assert(cp@.len() == 3);
    }
    if !matches_at_exec(&rest, q, &cp) {
        return false;
    }
    let tail = subvec(&rest, q + 3, rn);
    proof {
        assert(tail@ =~= rest@.skip(q + 3));
    }
    all_blank_exec(&tail)
}

fn table_attr_name_exec(l: &Vec<char>) -> (r: Vec<char>)
    requires
        is_table_attr_line(l@),
    ensures
        r@ == table_attr_name(l@),
{
    let p = str_to_chars("#[sea_orm(table_name = \"");
    let lb = leading_blanks_exec(l);
    let n: usize = l.len();
    proof {
        lemma_leading_blanks_le(l@);
        let t = trim_start_spec(l@);
        assert(t.subrange(0, table_prefix().len() as int) =~= l@.subrange(
            lb as int,
            lb + table_prefix().len(),
        ));
    }
    let rest = subvec(l, lb + p.len(), n);
    proof {
        assert(rest@ =~= trim_start_spec(l@).skip(table_prefix().len() as int));
    }
    let q = first_index_exec(&rest, '"');
    proof {
        lemma_first_index_of(rest@, '"');
    }
    subvec(&rest, 0, q)
}

/// The name and extracted type tag of a field line, or `None` when the
/// line is not a valid field declaration.
fn parse_field_exec(l: &Vec<char>) -> (r: Option<(Vec<char>, Vec<char>)>)
    requires
        is_field_start(l@),
    ensures
        match r {
            Option::Some(p) => field_valid(l@) && p.0@ == field_name_spec(l@) && p.1@
                == extract_type_spec(field_rawtype_spec(l@)),
            Option::None => !field_valid(l@),
        },
{
    let lb = leading_blanks_exec(l);
    proof {
        lemma_leading_blanks_le(l@);
    }
    let tv = subvec(l, lb, l.len());
    proof {
        assert(tv@ =~= trim_start_spec(l@));
    }
    let c = first_index_exec(&tv, ':');
    proof {
        lemma_first_index_of(tv@, ':');
    }
    if c >= tv.len() {
        return Option::None;
    }
    proof {
        reveal_strlit("pub ");
        let ci = first_index_of(tv@, ':') as int;
        if ci < 4 {
            assert(tv@.subrange(0, 4) == "pub "@);
            assert(tv@[ci] == tv@.subrange(0, 4)[ci]);
            assert(tv@[ci] == ':');
            assert(false);
        }
    }
    let name_raw = subvec(&tv, 4, c);
    let name = trim_exec(&name_raw);
    if name.len() == 0 {
        return Option::None;
    }
    let after = subvec(&tv, c + 1, tv.len());
    let u = trim_exec(&after);
    let raw: Vec<char> = if u.len() > 0 && u[u.len() - 1] == ',' {
        let u2 = subvec(&u, 0, u.len() - 1);
        proof {
            assert(u2@ =~= u@.drop_last());
        }
        trim_exec(&u2)
    } else {
        u
    };
    proof {
        assert(raw@ == field_rawtype_spec(l@));
    }
    let ty = extract_type_vec(&raw);
    Option::Some((name, ty))
}

// ---------------------------------------------------------------------
// The parser.
// ---------------------------------------------------------------------

/// `acc` prepended to the fields of a parse tail.
pub open spec fn opt_prepend(acc: Seq<FieldSpec>, o: Option<Seq<FieldSpec>>) -> Option<
    Seq<FieldSpec>,
> {
    match o {
        Option::Some(r) => Option::Some(acc + r),
        Option::None => Option::None,
    }
}

fn find_header_exec(ls: &Vec<Vec<char>>) -> (r: usize)
    ensures
        r as int == find_header(ls.deep_view(), 0),
        r <= ls.deep_view().len(),
{
    let mut i: usize = 0;
    while i < ls.len()
        invariant
            0 <= i <= ls@.len(),
            ls.deep_view().len() == ls@.len(),
            forall|j: int| 0 <= j < i ==> !is_struct_model_line(ls.deep_view()[j]),
        decreases ls@.len() - i,
    {
        let r = is_struct_model_line_exec(&ls[i]);
        proof {
            assert(ls.deep_view()[i as int] == ls@[i as int].deep_view());
            assert(ls@[i as int].deep_view() =~= ls@[i as int]@);
        }
        if r {
            proof {
                lemma_find_header_is(ls.deep_view(), 0, i as int);
            }
            return i;
        }
        i += 1;
    }
    proof {
        lemma_find_header_is(ls.deep_view(), 0, ls@.len() as int);
    }
    i
}

fn find_close_exec(ls: &Vec<Vec<char>>, from: usize) -> (r: usize)
    requires
        from <= ls.deep_view().len(),
    ensures
        r as int == find_close(ls.deep_view(), from as int),
        from <= r <= ls.deep_view().len(),
{
    let mut i: usize = from;
    while i < ls.len()
        invariant
            from <= i <= ls@.len(),
            ls.deep_view().len() == ls@.len(),
            forall|j: int| from <= j < i ==> !is_close_line(ls.deep_view()[j]),
        decreases ls@.len() - i,
    {
        let r = is_close_line_exec(&ls[i]);
        proof {
            assert(ls.deep_view()[i as int] == ls@[i as int].deep_view());
            assert(ls@[i as int].deep_view() =~= ls@[i as int]@);
        }
        if r {
            proof {
                lemma_find_close_is(ls.deep_view(), from as int, i as int);
            }
            return i;
        }
        i += 1;
    }
    proof {
        lemma_find_close_is(ls.deep_view(), from as int, ls@.len() as int);
    }
    i
}

fn find_table_attr_exec(ls: &Vec<Vec<char>>, end: usize) -> (r: usize)
    requires
        end <= ls.deep_view().len(),
    ensures
        r as int == find_table_attr(ls.deep_view(), 0, end as int),
        r <= end,
{
    let mut i: usize = 0;
    while i < end
        invariant
            0 <= i <= end <= ls@.len(),
            ls.deep_view().len() == ls@.len(),
            forall|j: int| 0 <= j < i ==> !is_table_attr_line(ls.deep_view()[j]),
        decreases end - i,
    {
        let r = is_table_attr_line_exec(&ls[i]);
        proof {
            assert(ls.deep_view()[i as int] == ls@[i as int].deep_view());
            assert(ls@[i as int].deep_view() =~= ls@[i as int]@);
        }
        if r {
            proof {
                lemma_find_table_attr_is(ls.deep_view(), 0, end as int, i as int);
            }
            return i;
        }
        i += 1;
    }
    proof {
        lemma_find_table_attr_is(ls.deep_view(), 0, end as int, end as int);
    }
    i
}

/// Parse the text of a model source file into its entity metadata.
///
/// `file_stem` is the base name of the file, used as the table name
/// where no annotation names one. The returned struct name is the
/// PascalCase form of the table name, and the columns stand in
/// declaration order. Fails with `MissingPrimaryKey` when no field
/// carries the primary-key marker (in particular when no model struct
/// is declared at all), and with `ParseError` when a line violates the
/// declaration grammar.
pub fn parse_entity_source(content: &str, file_stem: &str) -> (r: Result<
    EntityInfo,
    GenError,
>)
    ensures
        match parse_spec(content@, file_stem@) {
            ParseSpec::Entity(es) => r matches Result::Ok(e) && e@ == es,
            ParseSpec::MissingPk => r matches Result::Err(
                GenError::MissingPrimaryKey(m),
            ) && m@ == missing_pk_message(file_stem@),
            ParseSpec::Malformed => r matches Result::Err(GenError::ParseError(m))
                && m@ == parse_error_message(file_stem@),
        },
{
    let cv = str_to_chars(content);
    let ls = lines_exec(&cv);
    let ghost lsv = ls.deep_view();
    let n = ls.len();
    proof {
        assert(lsv == lines_spec(content@));
        assert(lsv.len() == ls@.len());
    }
    let h = find_header_exec(&ls);
    if h >= n {
        return Result::Err(
            GenError::MissingPrimaryKey(
                concat_strs("No primary key found in ", file_stem),
            ),
        );
    }
    let e = find_close_exec(&ls, h + 1);
    if e >= n {
        return Result::Err(
            GenError::ParseError(
                concat_strs("invalid model declaration in ", file_stem),
            ),
        );
    }
    let ghost body = lsv.subrange(h + 1, e as int);
    let mut i: usize = h + 1;
    let mut pending: bool = false;
    let mut cols: Vec<ColumnInfo> = Vec::new();
    let mut pk: Option<PrimaryKeyInfo> = Option::None;
    let ghost mut acc: Seq<FieldSpec> = Seq::empty();
    proof {
        match fields_from(body, 0, false) {
            Option::Some(fs) => {
                assert(acc + fs =~= fs);
            },
            Option::None => {},
        }
        assert(cols@.map_values(|c0: ColumnInfo| c0@) =~= columns_of(acc));
    }
    while i < e
        invariant
            h + 1 <= i <= e < n,
            n == lsv.len(),
            n == ls@.len(),
            lsv == ls.deep_view(),
            lsv == lines_spec(content@),
            h as int == find_header(lsv, 0),
            e as int == find_close(lsv, h + 1),
            body == lsv.subrange(h + 1, e as int),
            fields_from(body, 0, false) == opt_prepend(
                acc,
                fields_from(body, i - h - 1, pending),
            ),
            cols@.map_values(|c0: ColumnInfo| c0@) == columns_of(acc),
            pk matches Option::None ==> pk_index(acc) == -1,
            pk matches Option::Some(p) ==> pk_index(acc) >= 0 && p@ == pk_of(
                acc[pk_index(acc)],
            ),
        decreases e - i,
    {
        let ghost ib = i - h - 1;
        let lv = &ls[i];
        proof {
            assert(lsv[i as int] == ls@[i as int].deep_view());
            assert(ls@[i as int].deep_view() =~= lv@);
            assert(body[ib] == lsv[i as int]);
            assert(0 <= ib < body.len());
        }
        let blank = all_blank_exec(lv);
        let comment = is_comment_line_exec(lv);
        if blank || comment {
            proof {
                assert(fields_from(body, ib, pending) == fields_from(
                    body,
                    ib + 1,
                    pending,
                ));
            }
            i += 1;
        } else if is_attr_start_exec(lv) {
            if !is_wf_attr_line_exec(lv) {
                proof {
                    assert(fields_from(body, ib, pending) == Option::None::<
                        Seq<FieldSpec>,
                    >);
                    assert(parse_spec(content@, file_stem@) == ParseSpec::Malformed);
                }
                return Result::Err(
                    GenError::ParseError(
                        concat_strs("invalid model declaration in ", file_stem),
                    ),
                );
            }
            let pkl = is_pk_attr_line_exec(lv);
            proof {
                assert(fields_from(body, ib, pending) == fields_from(
                    body,
                    ib + 1,
                    pending || is_pk_attr_line(body[ib]),
                ));
            }
            pending = pending || pkl;
            i += 1;
        } else if is_field_start_exec(lv) {
            match parse_field_exec(lv) {
                Option::None => {
                    proof {
                        assert(fields_from(body, ib, pending) == Option::None::<
                            Seq<FieldSpec>,
                        >);
                        assert(parse_spec(content@, file_stem@)
                            == ParseSpec::Malformed);
                    }
                    return Result::Err(
                        GenError::ParseError(
                            concat_strs("invalid model declaration in ", file_stem),
                        ),
                    );
                },
                Option::Some(nt) => {
                    let (namev, tyv) = nt;
                    let ghost f = field_spec_of(body[ib], pending);
                    let ghost old_acc = acc;
                    let ghost old_pending = pending;
                    if pending {
                        pk = Option::Some(
                            PrimaryKeyInfo {
                                name: string_from_chars(&namev),
                                rust_type: string_from_chars(&tyv),
                            },
                        );
                    }
                    let ghost old_cols = cols@;
                    cols.push(
                        ColumnInfo {
                            name: string_from_chars(&namev),
                            rust_type: string_from_chars(&tyv),
                        },
                    );
                    proof {
                        acc = acc.push(f);
                        // the parse step
                        assert(fields_from(body, ib, old_pending) == match fields_from(
                            body,
                            ib + 1,
                            false,
                        ) {
                            Option::Some(rest) => Option::Some(seq![f] + rest),
                            Option::None => Option::None,
                        });
                        match fields_from(body, ib + 1, false) {
                            Option::Some(rest) => {
                                assert(old_acc + (seq![f] + rest) =~= acc + rest);
                            },
                            Option::None => {},
                        }
                        // the column list
                        assert(f.name == namev@);
                        assert(f.rust_type == tyv@);
                        assert(cols@.map_values(|c0: ColumnInfo| c0@) =~= old_cols
                            .map_values(|c0: ColumnInfo| c0@).push(column_of(f)));
                        assert(columns_of(acc) =~= columns_of(old_acc).push(
                            column_of(f),
                        ));
                        // the primary key
                        if old_pending {
                            assert(acc[acc.len() - 1] == f);
                            assert(pk_index(acc) == acc.len() - 1);
                        } else {
                            lemma_pk_index(old_acc);
                            assert(acc.drop_last() =~= old_acc);
                            assert(pk_index(acc) == pk_index(old_acc));
                            if pk_index(old_acc) >= 0 {
                                assert(acc[pk_index(acc)] == old_acc[pk_index(
                                    old_acc,
                                )]);
                            }
                        }
                    }
                    pending = false;
                    i += 1;
                },
            }
        } else {
            proof {
                assert(fields_from(body, ib, pending) == Option::None::<
                    Seq<FieldSpec>,
                >);
                assert(parse_spec(content@, file_stem@) == ParseSpec::Malformed);
            }
            return Result::Err(
                GenError::ParseError(
                    concat_strs("invalid model declaration in ", file_stem),
                ),
            );
        }
    }
    proof {
        assert(body.len() == e - h - 1);
        assert(fields_from(body, e - h - 1, pending) == Option::Some(Seq::<
            FieldSpec,
        >::empty()));
        assert(acc + Seq::<FieldSpec>::empty() =~= acc);
        assert(fields_from(body, 0, false) == Option::Some(acc));
    }
    match pk {
        Option::None => {
            proof {
                assert(pk_index(acc) == -1);
                assert(parse_spec(content@, file_stem@) == ParseSpec::MissingPk);
            }
            Result::Err(
                GenError::MissingPrimaryKey(
                    concat_strs("No primary key found in ", file_stem),
                ),
            )
        },
        Option::Some(pkv) => {
            let k = find_table_attr_exec(&ls, h);
            let table_v: Vec<char>;
            if k < h {
                proof {
                    lemma_find_table_attr_found(lsv, 0, h as int);
                    assert(is_table_attr_line(lsv[k as int]));
                    assert(lsv[k as int] == ls@[k as int].deep_view());
                    assert(ls@[k as int].deep_view() =~= ls@[k as int]@);
                }
                table_v = table_attr_name_exec(&ls[k]);
            } else {
                table_v = str_to_chars(file_stem);
            }
            proof {
                assert(table_v@ == table_name_spec(lsv, h as int, file_stem@));
            }
            let ts = string_from_chars(&table_v);
            let sn = to_pascal_case(ts.as_str());
            let en = EntityInfo {
                table_name: ts,
                struct_name: sn,
                primary_key: pkv,
                columns: cols,
            };
            proof {
                lemma_pk_index(acc);
                let tn = table_name_spec(lsv, h as int, file_stem@);
                let es = crate::table_structs::EntitySpec {
                    table_name: tn,
                    struct_name: pascal_of(tn),
                    primary_key: pk_of(acc[pk_index(acc)]),
                    columns: columns_of(acc),
                };
                assert(parse_spec(content@, file_stem@) == ParseSpec::Entity(es));
                assert(en@.columns =~= columns_of(acc));
                assert(en@ == es);
            }
            Result::Ok(en)
        },
    }
}

} // verus!
