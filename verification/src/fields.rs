//! Per-column attribute and type derivation: merges column-level settings
//! with the table's derived index sets into an ordered attribute list and
//! a target type, and emits the field lines of a table's model block.

use vstd::prelude::*;
use vstd::string::StringExecFns;
use crate::emitter::Block;
use crate::emitter::Entry;
use crate::emitter::entries_text;
use crate::emitter::lemma_entries_text_push;
use crate::emitter::line_text;
use crate::schema::ColType;
use crate::schema::DefaultValue;
use crate::schema::MetaIndexer;
use crate::schema::TableColumn;
use crate::schema::Target;
use crate::schema::col_type_attr;
use crate::schema::col_type_attr_of;
use crate::schema::contains_name;
use crate::schema::default_text;
use crate::schema::has_name;
use crate::schema::render_default;
use crate::schema::rust_type;
use crate::schema::rust_type_of;

verus! {

/// The character sequences of a list of strings.
pub open spec fn views_of(xs: Seq<String>) -> Seq<Seq<char>> {
    xs.map_values(|s: String| s@)
}

/// The elements of `xs` joined by `sep`.
pub open spec fn join_texts(xs: Seq<Seq<char>>, sep: Seq<char>) -> Seq<char>
    decreases xs.len(),
{
    if xs.len() == 0 {
        Seq::empty()
    } else if xs.len() == 1 {
        xs[0]
    } else {
        join_texts(xs.drop_last(), sep) + sep + xs.last()
    }
}

/// Joins the strings of `xs` with the separator `sep`.
pub fn join_names(xs: &Vec<String>, sep: &str) -> (r: String)
    ensures
        r@ == join_texts(views_of(xs@), sep@),
{
    let mut r = String::new();
    let n = xs.len();
    let mut i: usize = 0;
    while i < n
        invariant
            n == xs@.len(),
            i <= n,
            r@ == join_texts(views_of(xs@).take(i as int), sep@),
        decreases n - i,
    {
        proof {
            assert(views_of(xs@).take(i + 1).drop_last() =~= views_of(xs@).take(i as int));
            assert(views_of(xs@).take(i + 1).last() == xs@[i as int]@);
            assert(views_of(xs@).take(i + 1)[0] == xs@[0]@);
        }
        if i > 0 {
            r.append(sep);
        }
        r.append(xs[i].as_str());
        proof {
            assert(r@ =~= join_texts(views_of(xs@).take(i + 1), sep@));
        }
        i = i + 1;
    }
    proof {
        assert(views_of(xs@).take(n as int) =~= views_of(xs@));
    }
    r
}

/// The explicit column-type attribute texts of a column (none or one).
pub open spec fn type_attr_texts(col: TableColumn, target: Target) -> Seq<Seq<char>> {
    match col_type_attr_of(col.col_type, target) {
        Some(t) => seq!["column_type = \""@ + t + "\""@],
        None => Seq::empty(),
    }
}

/// The primary-key attribute texts of a column: `primary_key` when the
/// column is flagged primary (then with the auto-increment marker
/// disabled when it is not incremental), or `primary_key` alone when the
/// table's derived primary set names the column.
pub open spec fn pk_attr_texts(col: TableColumn, pk: Seq<String>) -> Seq<Seq<char>> {
    if col.settings.is_pk {
        seq!["primary_key"@] + (if !col.settings.is_incremental {
            seq!["auto_increment = false"@]
        } else {
            Seq::empty()
        })
    } else if has_name(pk, col.name@) {
        seq!["primary_key"@]
    } else {
        Seq::empty()
    }
}

/// The nullable attribute texts of a column (none or one).
pub open spec fn nullable_attr_texts(col: TableColumn) -> Seq<Seq<char>> {
    if col.settings.is_nullable {
        seq!["nullable"@]
    } else {
        Seq::empty()
    }
}

/// The unique attribute texts of a column: one `unique`, emitted at most
/// once, when the column is flagged unique or the table's derived unique
/// set names it.
pub open spec fn unique_attr_texts(col: TableColumn, uniq: Seq<String>) -> Seq<Seq<char>> {
    if col.settings.is_unique || has_name(uniq, col.name@) {
        seq!["unique"@]
    } else {
        Seq::empty()
    }
}

/// The default-value attribute texts of a column (none or one).
pub open spec fn default_attr_texts(col: TableColumn) -> Seq<Seq<char>> {
    match col.settings.default {
        Some(d) => seq!["default_value = "@ + default_text(d)],
        None => Seq::empty(),
    }
}

/// The ordered attribute list of a column, given the table's derived
/// primary and unique sets.
pub open spec fn attrs_of(col: TableColumn, pk: Seq<String>, uniq: Seq<String>, target: Target) -> Seq<
    Seq<char>,
> {
    type_attr_texts(col, target) + pk_attr_texts(col, pk) + nullable_attr_texts(col)
        + unique_attr_texts(col, uniq) + default_attr_texts(col)
}

/// Derives the ordered attribute list of a column.
pub fn col_attrs(col: &TableColumn, m: &MetaIndexer, target: &Target) -> (v: Vec<String>)
    ensures
        views_of(v@) == attrs_of(*col, m.pk_list@, m.unique_list@, *target),
{
    proof {
        reveal_strlit("\"");
    }
    let mut v: Vec<String> = Vec::new();
    match col_type_attr(&col.col_type, target) {
        Some(t) => {
            let mut a = String::from_str("column_type = \"");
            a.append(t.as_str());
            a.append("\"");
            v.push(a);
        },
        None => {},
    }
    proof {
        assert(views_of(v@) =~= type_attr_texts(*col, *target));
    }
    let ghost g1 = views_of(v@);
    if col.settings.is_pk {
        v.push(String::from_str("primary_key"));
        if !col.settings.is_incremental {
            v.push(String::from_str("auto_increment = false"));
        }
    } else {
        if contains_name(&m.pk_list, &col.name) {
            v.push(String::from_str("primary_key"));
        }
    }
    proof {
        assert(views_of(v@) =~= g1 + pk_attr_texts(*col, m.pk_list@));
    }
    let ghost g2 = views_of(v@);
    if col.settings.is_nullable {
        v.push(String::from_str("nullable"));
    }
    proof {
        assert(views_of(v@) =~= g2 + nullable_attr_texts(*col));
    }
    let ghost g3 = views_of(v@);
    let uniq = if col.settings.is_unique {
        true
    } else {
        contains_name(&m.unique_list, &col.name)
    };
    if uniq {
        v.push(String::from_str("unique"));
    }
    proof {
        assert(views_of(v@) =~= g3 + unique_attr_texts(*col, m.unique_list@));
    }
    let ghost g4 = views_of(v@);
    match &col.settings.default {
        Some(d) => {
            let mut a = String::from_str("default_value = ");
            let dv = render_default(d);
            a.append(dv.as_str());
            v.push(a);
        },
        None => {},
    }
    proof {
        assert(views_of(v@) =~= g4 + default_attr_texts(*col));
        assert(views_of(v@) =~= attrs_of(*col, m.pk_list@, m.unique_list@, *target));
    }
    v
}

/// The target type text of a column: the mapped native type, wrapped in
/// an optional container iff the column is nullable.
pub open spec fn field_type_text(col: TableColumn, target: Target) -> Seq<char> {
    if col.settings.is_nullable {
        "Option<"@ + rust_type_of(col.col_type, target) + ">"@
    } else {
        rust_type_of(col.col_type, target)
    }
}

/// The declaration line of a field.
pub open spec fn field_decl_text(col: TableColumn, target: Target) -> Seq<char> {
    "pub "@ + col.name@ + ": "@ + field_type_text(col, target) + ","@
}

/// The attribute line of a field, when its attribute list is non-empty.
pub open spec fn field_attr_line_text(
    col: TableColumn,
    pk: Seq<String>,
    uniq: Seq<String>,
    target: Target,
) -> Seq<char> {
    "#[sea_orm("@ + join_texts(attrs_of(col, pk, uniq, target), ", "@) + ")]"@
}

/// The rendered lines of one field at depth `d`: the attribute line when
/// any attribute was derived, then the declaration line.
pub open spec fn field_lines_text(
    col: TableColumn,
    pk: Seq<String>,
    uniq: Seq<String>,
    target: Target,
    d: nat,
) -> Seq<char> {
    (if attrs_of(col, pk, uniq, target).len() > 0 {
        line_text(field_attr_line_text(col, pk, uniq, target), d)
    } else {
        Seq::empty()
    }) + line_text(field_decl_text(col, target), d)
}

/// The rendered lines of a list of fields at depth `d`, in order.
pub open spec fn fields_text(
    cols: Seq<TableColumn>,
    pk: Seq<String>,
    uniq: Seq<String>,
    target: Target,
    d: nat,
) -> Seq<char>
    decreases cols.len(),
{
    if cols.len() == 0 {
        Seq::empty()
    } else {
        fields_text(cols.drop_last(), pk, uniq, target, d) + field_lines_text(
            cols.last(),
            pk,
            uniq,
            target,
            d,
        )
    }
}

/// Appends the lines of one field to a block.
fn push_field_lines(acc: Block, col: &TableColumn, m: &MetaIndexer, target: &Target) -> (r: Block)
    ensures
        r.depth == acc.depth,
        r.header == acc.header,
        forall|d: nat| #[trigger]
            entries_text(r.entries@, d) == entries_text(acc.entries@, d) + field_lines_text(
                *col,
                m.pk_list@,
                m.unique_list@,
                *target,
                d,
            ),
{
    let attrs = col_attrs(col, m, target);
    let has_attrs = attrs.len() > 0;
    let mut attr_line = String::from_str("#[sea_orm(");
    let joined = join_names(&attrs, ", ");
    attr_line.append(joined.as_str());
    attr_line.append(")]");
    let ty = rust_type(&col.col_type, target);
    let ty_full = if col.settings.is_nullable {
        let mut s = String::from_str("Option<");
        s.append(ty.as_str());
        s.append(">");
        s
    } else {
        ty
    };
    let mut decl = String::from_str("pub ");
    decl.append(col.name.as_str());
    decl.append(": ");
    decl.append(ty_full.as_str());
    decl.append(",");
    proof {
        assert(attr_line@ =~= field_attr_line_text(*col, m.pk_list@, m.unique_list@, *target));
        assert(ty_full@ =~= field_type_text(*col, *target));
        assert(decl@ =~= field_decl_text(*col, *target));
    }
    let r = acc.line_cond(has_attrs, attr_line).line(decl);
    proof {
        assert forall|d: nat| #[trigger] entries_text(r.entries@, d) == entries_text(
            acc.entries@,
            d,
        ) + field_lines_text(*col, m.pk_list@, m.unique_list@, *target, d) by {
            if has_attrs {
                lemma_entries_text_push(
                    acc.entries@,
                    Entry::Line(attr_line),
                    d,
                );
                lemma_entries_text_push(
                    acc.entries@.push(Entry::Line(attr_line)),
                    Entry::Line(decl),
                    d,
                );
            } else {
                lemma_entries_text_push(acc.entries@, Entry::Line(decl), d);
            }
            assert(entries_text(r.entries@, d) =~= entries_text(acc.entries@, d)
                + field_lines_text(*col, m.pk_list@, m.unique_list@, *target, d));
        }
    }
    r
}

/// Builds a table's model block: every field of the table, in original
/// order, at depth one.
pub fn build_model_block(cols: &Vec<TableColumn>, m: &MetaIndexer, target: &Target) -> (b: Block)
    ensures
        b.depth == 1,
        b.header is Some,
        b.header->0@ == "pub struct Model"@,
        entries_text(b.entries@, 2) == fields_text(cols@, m.pk_list@, m.unique_list@, *target, 2),
{
    let mut b = Block::new(1, Some("pub struct Model"));
    let n = cols.len();
    let mut i: usize = 0;
    while i < n
        invariant
            n == cols@.len(),
            i <= n,
            b.depth == 1,
            b.header is Some,
            b.header->0@ == "pub struct Model"@,
            entries_text(b.entries@, 2) == fields_text(
                cols@.take(i as int),
                m.pk_list@,
                m.unique_list@,
                *target,
                2,
            ),
        decreases n - i,
    {
        proof {
            assert(cols@.take(i + 1).drop_last() =~= cols@.take(i as int));
            assert(cols@.take(i + 1).last() == cols@[i as int]);
        }
        b = push_field_lines(b, &cols[i], m, target);
        i = i + 1;
    }
    proof {
        assert(cols@.take(n as int) =~= cols@);
    }
    b
}


/// Occurrences of the text `x` among `xs`.
pub open spec fn text_count(xs: Seq<Seq<char>>, x: Seq<char>) -> nat
    decreases xs.len(),
{
    if xs.len() == 0 {
        0
    } else {
        text_count(xs.drop_last(), x) + (if xs.last() == x {
            1nat
        } else {
            0nat
        })
    }
}

/// Counting a text distributes over concatenation.
proof fn lemma_text_count_concat(a: Seq<Seq<char>>, b: Seq<Seq<char>>, x: Seq<char>)
    ensures
        text_count(a + b, x) == text_count(a, x) + text_count(b, x),
    decreases b.len(),
{
    if b.len() == 0 {
        assert(a + b =~= a);
    } else {
        assert((a + b).drop_last() =~= a + b.drop_last());
        lemma_text_count_concat(a, b.drop_last(), x);
    }
}

/// Counting a text in a singleton list.
proof fn lemma_text_count_single(y: Seq<char>, x: Seq<char>)
    ensures
        text_count(seq![y], x) == if y == x {
            1nat
        } else {
            0nat
        },
{
    assert(seq![y].drop_last() =~= Seq::<Seq<char>>::empty());
    assert(text_count(Seq::<Seq<char>>::empty(), x) == 0);
    assert(seq![y].last() == y);
}

/// A column flagged primary and not incremental, with no other attribute
/// source active, derives exactly the attributes `primary_key` and
/// `auto_increment = false`, in that order.
pub proof fn lemma_pk_without_increment_attrs(
    col: TableColumn,
    pk: Seq<String>,
    uniq: Seq<String>,
    target: Target,
)
    requires
        col.settings.is_pk,
        !col.settings.is_incremental,
        col_type_attr_of(col.col_type, target) is None,
        !col.settings.is_nullable,
        !col.settings.is_unique,
        !has_name(uniq, col.name@),
        col.settings.default is None,
    ensures
        attrs_of(col, pk, uniq, target) == seq!["primary_key"@, "auto_increment = false"@],
{
    assert(attrs_of(col, pk, uniq, target) =~= seq!["primary_key"@, "auto_increment = false"@]);
}

/// A column flagged primary and not incremental always derives the
/// attribute `primary_key` immediately followed by `auto_increment =
/// false`, whatever else is derived around them.
pub proof fn lemma_pk_marker_adjacent(
    col: TableColumn,
    pk: Seq<String>,
    uniq: Seq<String>,
    target: Target,
)
    requires
        col.settings.is_pk,
        !col.settings.is_incremental,
    ensures
        ({
            let k = type_attr_texts(col, target).len() as int;
            &&& k + 1 < attrs_of(col, pk, uniq, target).len()
            &&& attrs_of(col, pk, uniq, target)[k] == "primary_key"@
            &&& attrs_of(col, pk, uniq, target)[k + 1] == "auto_increment = false"@
        }),
{
    let t = type_attr_texts(col, target);
    let p = pk_attr_texts(col, pk);
    assert(p[0] == "primary_key"@);
    assert(p[1] == "auto_increment = false"@);
    assert(attrs_of(col, pk, uniq, target)[t.len() as int] == p[0]);
    assert(attrs_of(col, pk, uniq, target)[t.len() as int + 1] == p[1]);
}

/// A column that is flagged unique, or named in the table's derived
/// unique set, or both, derives exactly one `unique` attribute: double
/// qualification never duplicates it.
pub proof fn lemma_unique_emitted_once(
    col: TableColumn,
    pk: Seq<String>,
    uniq: Seq<String>,
    target: Target,
)
    requires
        col.settings.is_unique || has_name(uniq, col.name@),
    ensures
        text_count(attrs_of(col, pk, uniq, target), "unique"@) == 1,
{
    reveal_strlit("unique");
    reveal_strlit("column_type = \"");
    reveal_strlit("\"");
    reveal_strlit("primary_key");
    reveal_strlit("auto_increment = false");
    reveal_strlit("nullable");
    reveal_strlit("default_value = ");
    let u = "unique"@;
    assert(u.len() == 6);
    assert("primary_key"@.len() == 11);
    assert("auto_increment = false"@.len() == 22);
    assert("nullable"@.len() == 8);
    assert("column_type = \""@.len() == 15);
    assert("default_value = "@.len() == 16);
    assert("primary_key"@ != u);
    assert("auto_increment = false"@ != u);
    assert("nullable"@ != u);
    let t = type_attr_texts(col, target);
    let p = pk_attr_texts(col, pk);
    let nl = nullable_attr_texts(col);
    let q = unique_attr_texts(col, uniq);
    let d = default_attr_texts(col);
    lemma_text_count_concat(t, p, u);
    lemma_text_count_concat(t + p, nl, u);
    lemma_text_count_concat(t + p + nl, q, u);
    lemma_text_count_concat(t + p + nl + q, d, u);
    match col_type_attr_of(col.col_type, target) {
        Some(a) => {
            lemma_text_count_single("column_type = \""@ + a + "\""@, u);
            assert(("column_type = \""@ + a + "\""@).len() >= 16);
            assert(text_count(t, u) == 0);
        },
        None => {
            assert(text_count(t, u) == 0);
        },
    }
    if col.settings.is_pk {
        lemma_text_count_single("primary_key"@, u);
        if !col.settings.is_incremental {
            lemma_text_count_concat(seq!["primary_key"@], seq!["auto_increment = false"@], u);
            lemma_text_count_single("auto_increment = false"@, u);
        } else {
            assert(p =~= seq!["primary_key"@] + Seq::<Seq<char>>::empty());
            lemma_text_count_concat(seq!["primary_key"@], Seq::<Seq<char>>::empty(), u);
        }
        assert(text_count(p, u) == 0);
    } else if has_name(pk, col.name@) {
        lemma_text_count_single("primary_key"@, u);
        assert(text_count(p, u) == 0);
    } else {
        assert(text_count(p, u) == 0);
    }
    if col.settings.is_nullable {
        lemma_text_count_single("nullable"@, u);
        assert(text_count(nl, u) == 0);
    } else {
        assert(text_count(nl, u) == 0);
    }
    lemma_text_count_single(u, u);
    assert(text_count(q, u) == 1);
    match col.settings.default {
        Some(dv) => {
            lemma_text_count_single("default_value = "@ + default_text(dv), u);
            assert(("default_value = "@ + default_text(dv)).len() >= 16);
            assert(text_count(d, u) == 0);
        },
        None => {
            assert(text_count(d, u) == 0);
        },
    }
}

} // verus!

