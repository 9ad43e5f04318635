//! Delimiter balance of the transpiled output: for every schema whose own
//! names hold no brace characters, and given case converters that return
//! brace-free names, the rendered output has 1:1 matching open and close
//! block delimiters.

use vstd::prelude::*;
use crate::emitter::balanced;
use crate::emitter::blanks;
use crate::emitter::char_count;
use crate::emitter::lemma_char_count_blanks;
use crate::emitter::lemma_char_count_concat;
use crate::emitter::lemma_char_count_line;
use crate::emitter::lemma_char_count_single;
use crate::emitter::line_text;
use crate::fields::attrs_of;
use crate::fields::default_attr_texts;
use crate::fields::field_attr_line_text;
use crate::fields::field_decl_text;
use crate::fields::field_lines_text;
use crate::fields::field_type_text;
use crate::fields::fields_text;
use crate::fields::join_texts;
use crate::fields::nullable_attr_texts;
use crate::fields::pk_attr_texts;
use crate::fields::type_attr_texts;
use crate::fields::unique_attr_texts;
use crate::names::pascal_of;
use crate::names::snake_of;
use crate::refs::RefBlock;
use crate::refs::RefSettings;
use crate::schema::ColType;
use crate::schema::DefaultValue;
use crate::schema::EnumBlock;
use crate::schema::SchemaBlock;
use crate::schema::TableBlock;
use crate::schema::TableColumn;
use crate::schema::Target;
use crate::schema::col_type_attr_of;
use crate::schema::dec_digit;
use crate::schema::dec_int;
use crate::schema::dec_nat;
use crate::schema::default_text;
use crate::schema::rust_type_of;
use crate::transpiler::TranspileError;
use crate::transpiler::action_attr_texts;
use crate::transpiler::action_text;
use crate::transpiler::aux_text;
use crate::transpiler::banner_text;
use crate::transpiler::enum_decl_text;
use crate::transpiler::enum_values_text;
use crate::transpiler::enums_decls_text;
use crate::transpiler::headed_text;
use crate::transpiler::incoming_attr_text;
use crate::transpiler::incoming_aux_text;
use crate::transpiler::incoming_rel_lines;
use crate::transpiler::incoming_lines_text;
use crate::transpiler::outgoing_attr_texts;
use crate::transpiler::outgoing_aux_text;
use crate::transpiler::outgoing_rel_lines;
use crate::transpiler::outgoing_lines_text;
use crate::transpiler::output_text;
use crate::transpiler::rel_lines_text;
use crate::transpiler::related_aux_text;
use crate::transpiler::result_view;
use crate::transpiler::schema_name_text;
use crate::transpiler::self_attr_texts;
use crate::transpiler::self_aux_text;
use crate::transpiler::self_rel_lines;
use crate::transpiler::selfs_aux_text;
use crate::transpiler::selfs_lines_text;
use crate::transpiler::spec_transpile;
use crate::transpiler::table_mod_text;
use crate::transpiler::tables_text;

verus! {

/// A character sequence without brace characters.
pub open spec fn str_brace_free(s: Seq<char>) -> bool {
    forall|i: int| 0 <= i < s.len() ==> s[i] != '{' && s[i] != '}'
}

/// The case converters return brace-free names. This holds of inflector's
/// converters, which emit only alphanumeric characters and underscores,
/// as the trusted conversion wrappers also state of their results.
pub open spec fn converters_brace_free() -> bool {
    &&& forall|x: Seq<char>| str_brace_free(#[trigger] pascal_of(x))
    &&& forall|x: Seq<char>| str_brace_free(#[trigger] snake_of(x))
}

/// An absent character is not counted.
proof fn lemma_count_absent(s: Seq<char>, c: char)
    requires
        forall|i: int| 0 <= i < s.len() ==> s[i] != c,
    ensures
        char_count(s, c) == 0,
    decreases s.len(),
{
    if s.len() > 0 {
        lemma_count_absent(s.drop_last(), c);
    }
}

/// Brace-free text is balanced.
pub proof fn lemma_bf_balanced(s: Seq<char>)
    requires
        str_brace_free(s),
    ensures
        balanced(s),
{
    lemma_count_absent(s, '{');
    lemma_count_absent(s, '}');
}

/// Concatenation preserves brace-freeness.
proof fn lemma_bf_concat(a: Seq<char>, b: Seq<char>)
    requires
        str_brace_free(a),
        str_brace_free(b),
    ensures
        str_brace_free(a + b),
{
    assert forall|i: int| 0 <= i < (a + b).len() implies (a + b)[i] != '{' && (a + b)[i]
        != '}' by {
        if i < a.len() {
            assert((a + b)[i] == a[i]);
        } else {
            assert((a + b)[i] == b[i - a.len()]);
        }
    }
}

/// Concatenation of balanced texts is balanced.
proof fn lemma_balanced_concat(a: Seq<char>, b: Seq<char>)
    requires
        balanced(a),
        balanced(b),
    ensures
        balanced(a + b),
{
    lemma_char_count_concat(a, b, '{');
    lemma_char_count_concat(a, b, '}');
}

/// A line with balanced content is balanced.
proof fn lemma_line_balanced(l: Seq<char>, d: nat)
    requires
        balanced(l),
    ensures
        balanced(line_text(l, d)),
{
    lemma_char_count_line(l, d, '{');
    lemma_char_count_line(l, d, '}');
}

/// Blank runs are balanced.
proof fn lemma_blanks_balanced(n: nat)
    ensures
        balanced(blanks(n)),
{
    lemma_char_count_blanks(n, '{');
    lemma_char_count_blanks(n, '}');
}

/// A headed block with balanced inner text is balanced: it contributes
/// exactly one opening and one closing delimiter of its own.
proof fn lemma_headed_balanced(h: Seq<char>, d: nat, inner: Seq<char>)
    requires
        str_brace_free(h),
        balanced(inner),
    ensures
        balanced(headed_text(h, d, inner)),
{
    broadcast use lemma_char_count_concat;

    lemma_char_count_line(h + seq![' ', '{'], d, '{');
    lemma_char_count_line(h + seq![' ', '{'], d, '}');
    lemma_char_count_line(seq!['}'], d, '{');
    lemma_char_count_line(seq!['}'], d, '}');
    lemma_count_absent(h, '{');
    lemma_count_absent(h, '}');
    lemma_char_count_single(' ', '{');
    lemma_char_count_single(' ', '}');
    lemma_char_count_single('{', '{');
    lemma_char_count_single('{', '}');
    lemma_char_count_single('}', '{');
    lemma_char_count_single('}', '}');
    assert(h + seq![' ', '{'] =~= (h + seq![' ']) + seq!['{']);
}

/// Joining brace-free texts with a brace-free separator is brace-free.
proof fn lemma_join_bf(xs: Seq<Seq<char>>, sep: Seq<char>)
    requires
        forall|i: int| 0 <= i < xs.len() ==> str_brace_free(#[trigger] xs[i]),
        str_brace_free(sep),
    ensures
        str_brace_free(join_texts(xs, sep)),
    decreases xs.len(),
{
    if xs.len() == 0 {
    } else if xs.len() == 1 {
    } else {
        lemma_join_bf(xs.drop_last(), sep);
        lemma_bf_concat(join_texts(xs.drop_last(), sep), sep);
        lemma_bf_concat(join_texts(xs.drop_last(), sep) + sep, xs.last());
    }
}

/// Elementwise brace-freeness survives list concatenation.
proof fn lemma_all_bf_concat(a: Seq<Seq<char>>, b: Seq<Seq<char>>)
    requires
        forall|i: int| 0 <= i < a.len() ==> str_brace_free(#[trigger] a[i]),
        forall|i: int| 0 <= i < b.len() ==> str_brace_free(#[trigger] b[i]),
    ensures
        forall|i: int| 0 <= i < (a + b).len() ==> str_brace_free(#[trigger] (a + b)[i]),
{
    assert forall|i: int| 0 <= i < (a + b).len() implies str_brace_free(#[trigger] (a + b)[i]) by {
        if i < a.len() {
            assert((a + b)[i] == a[i]);
        } else {
            assert((a + b)[i] == b[i - a.len()]);
        }
    }
}

/// An optional schema name without braces.
pub open spec fn opt_str_brace_free(o: Option<String>) -> bool {
    match o {
        Some(x) => str_brace_free(x@),
        None => true,
    }
}

/// A default literal whose own strings hold no braces.
pub open spec fn default_brace_free(d: DefaultValue) -> bool {
    match d {
        DefaultValue::Str(s) => str_brace_free(s@),
        DefaultValue::Raw(s) => str_brace_free(s@),
        _ => true,
    }
}

/// A column whose name and default hold no braces.
pub open spec fn col_brace_free(c: TableColumn) -> bool {
    &&& str_brace_free(c.name@)
    &&& match c.settings.default {
        Some(d) => default_brace_free(d),
        None => true,
    }
}

/// A table whose own names hold no braces.
pub open spec fn table_brace_free(t: TableBlock) -> bool {
    &&& str_brace_free(t.ident.name@)
    &&& opt_str_brace_free(t.ident.schema)
    &&& forall|i: int| 0 <= i < t.cols@.len() ==> col_brace_free(#[trigger] t.cols@[i])
}

/// An enumeration whose own names hold no braces.
pub open spec fn enum_brace_free(e: EnumBlock) -> bool {
    &&& str_brace_free(e.name@)
    &&& opt_str_brace_free(e.schema)
    &&& forall|i: int| 0 <= i < e.values@.len() ==> str_brace_free(#[trigger] e.values@[i]@)
}

/// A schema whose own names hold no braces.
pub open spec fn schema_brace_free(s: SchemaBlock) -> bool {
    &&& forall|i: int| 0 <= i < s.tables@.len() ==> table_brace_free(#[trigger] s.tables@[i])
    &&& forall|i: int| 0 <= i < s.enums@.len() ==> enum_brace_free(#[trigger] s.enums@[i])
}

/// Decimal digit sequences hold no braces.
proof fn lemma_dec_nat_bf(n: nat)
    ensures
        str_brace_free(dec_nat(n)),
    decreases n,
{
    if n < 10 {
        assert(dec_nat(n) == seq![dec_digit(n)]);
    } else {
        lemma_dec_nat_bf(n / 10);
        assert(dec_nat(n / 10).push(dec_digit(n % 10)) =~= dec_nat(n / 10) + seq![
            dec_digit(n % 10),
        ]);
        lemma_bf_concat(dec_nat(n / 10), seq![dec_digit(n % 10)]);
    }
}

/// Canonical integer text holds no braces.
proof fn lemma_dec_int_bf(v: int)
    ensures
        str_brace_free(dec_int(v)),
{
    if v < 0 {
        lemma_dec_nat_bf((-v) as nat);
        lemma_bf_concat(seq!['-'], dec_nat((-v) as nat));
    } else {
        lemma_dec_nat_bf(v as nat);
    }
}

/// Canonical default text holds no braces when the literal's own strings
/// hold none.
proof fn lemma_default_text_bf(d: DefaultValue)
    requires
        default_brace_free(d),
    ensures
        str_brace_free(default_text(d)),
{
    reveal_strlit("true");
    reveal_strlit("false");
    reveal_strlit("null");
    match d {
        DefaultValue::Str(s) => {
            lemma_bf_concat(seq!['"'], s@);
            lemma_bf_concat(seq!['"'] + s@, seq!['"']);
        },
        DefaultValue::Raw(_) => {},
        DefaultValue::Int(v) => {
            lemma_dec_int_bf(v as int);
        },
        DefaultValue::Bool(b) => {
            assert(str_brace_free("true"@));
            assert(str_brace_free("false"@));
        },
        DefaultValue::Null => {
            assert(str_brace_free("null"@));
        },
    }
}

/// Mapped native types hold no braces.
proof fn lemma_rust_type_bf(t: ColType, target: Target)
    requires
        converters_brace_free(),
    ensures
        str_brace_free(rust_type_of(t, target)),
{
    reveal_strlit("String");
    reveal_strlit("i16");
    reveal_strlit("i32");
    reveal_strlit("i64");
    reveal_strlit("f32");
    reveal_strlit("f64");
    reveal_strlit("bool");
    reveal_strlit("Vec<u8>");
    reveal_strlit("Date");
    reveal_strlit("Time");
    reveal_strlit("DateTime");
    reveal_strlit("DateTimeWithTimeZone");
    reveal_strlit("Uuid");
    reveal_strlit("Json");
    reveal_strlit("Decimal");
}

/// Every derived attribute text holds no braces.
proof fn lemma_attrs_bf(col: TableColumn, pk: Seq<String>, uniq: Seq<String>, target: Target)
    requires
        converters_brace_free(),
        col_brace_free(col),
    ensures
        forall|i: int|
            0 <= i < attrs_of(col, pk, uniq, target).len() ==> str_brace_free(
                #[trigger] attrs_of(col, pk, uniq, target)[i],
            ),
{
    reveal_strlit("column_type = \"");
    reveal_strlit("\"");
    reveal_strlit("primary_key");
    reveal_strlit("auto_increment = false");
    reveal_strlit("nullable");
    reveal_strlit("unique");
    reveal_strlit("default_value = ");
    reveal_strlit("Char");
    reveal_strlit("Text");
    reveal_strlit("Json");
    reveal_strlit("JsonBinary");
    reveal_strlit("Binary");
    let t = type_attr_texts(col, target);
    let p = pk_attr_texts(col, pk);
    let nl = nullable_attr_texts(col);
    let q = unique_attr_texts(col, uniq);
    let d = default_attr_texts(col);
    match col_type_attr_of(col.col_type, target) {
        Some(a) => {
            lemma_bf_concat("column_type = \""@, a);
            lemma_bf_concat("column_type = \""@ + a, "\""@);
            assert(forall|i: int| 0 <= i < t.len() ==> str_brace_free(#[trigger] t[i]));
        },
        None => {},
    }
    assert(forall|i: int| 0 <= i < p.len() ==> str_brace_free(#[trigger] p[i]));
    assert(forall|i: int| 0 <= i < nl.len() ==> str_brace_free(#[trigger] nl[i]));
    assert(forall|i: int| 0 <= i < q.len() ==> str_brace_free(#[trigger] q[i]));
    match col.settings.default {
        Some(dv) => {
            lemma_default_text_bf(dv);
            lemma_bf_concat("default_value = "@, default_text(dv));
            assert(forall|i: int| 0 <= i < d.len() ==> str_brace_free(#[trigger] d[i]));
        },
        None => {},
    }
    lemma_all_bf_concat(t, p);
    lemma_all_bf_concat(t + p, nl);
    lemma_all_bf_concat(t + p + nl, q);
    lemma_all_bf_concat(t + p + nl + q, d);
}

/// The rendered lines of one field are balanced.
proof fn lemma_field_lines_balanced(
    col: TableColumn,
    pk: Seq<String>,
    uniq: Seq<String>,
    target: Target,
    d: nat,
)
    requires
        converters_brace_free(),
        col_brace_free(col),
    ensures
        balanced(field_lines_text(col, pk, uniq, target, d)),
{
    reveal_strlit("#[sea_orm(");
    reveal_strlit(")]");
    reveal_strlit(", ");
    reveal_strlit("pub ");
    reveal_strlit(": ");
    reveal_strlit(",");
    reveal_strlit("Option<");
    reveal_strlit(">");
    lemma_attrs_bf(col, pk, uniq, target);
    lemma_join_bf(attrs_of(col, pk, uniq, target), ", "@);
    lemma_bf_concat("#[sea_orm("@, join_texts(attrs_of(col, pk, uniq, target), ", "@));
    lemma_bf_concat(
        "#[sea_orm("@ + join_texts(attrs_of(col, pk, uniq, target), ", "@),
        ")]"@,
    );
    lemma_bf_balanced(field_attr_line_text(col, pk, uniq, target));
    lemma_rust_type_bf(col.col_type, target);
    if col.settings.is_nullable {
        lemma_bf_concat("Option<"@, rust_type_of(col.col_type, target));
        lemma_bf_concat("Option<"@ + rust_type_of(col.col_type, target), ">"@);
    }
    lemma_bf_concat("pub "@, col.name@);
    lemma_bf_concat("pub "@ + col.name@, ": "@);
    lemma_bf_concat("pub "@ + col.name@ + ": "@, field_type_text(col, target));
    lemma_bf_concat("pub "@ + col.name@ + ": "@ + field_type_text(col, target), ","@);
    lemma_bf_balanced(field_decl_text(col, target));
    lemma_line_balanced(field_attr_line_text(col, pk, uniq, target), d);
    lemma_line_balanced(field_decl_text(col, target), d);
    if attrs_of(col, pk, uniq, target).len() > 0 {
        lemma_balanced_concat(
            line_text(field_attr_line_text(col, pk, uniq, target), d),
            line_text(field_decl_text(col, target), d),
        );
    } else {
        assert(field_lines_text(col, pk, uniq, target, d) =~= line_text(
            field_decl_text(col, target),
            d,
        ));
    }
}

/// The rendered field lines of a table are balanced.
proof fn lemma_fields_balanced(
    cols: Seq<TableColumn>,
    pk: Seq<String>,
    uniq: Seq<String>,
    target: Target,
    d: nat,
)
    requires
        converters_brace_free(),
        forall|i: int| 0 <= i < cols.len() ==> col_brace_free(#[trigger] cols[i]),
    ensures
        balanced(fields_text(cols, pk, uniq, target, d)),
    decreases cols.len(),
{
    if cols.len() > 0 {
        lemma_fields_balanced(cols.drop_last(), pk, uniq, target, d);
        lemma_field_lines_balanced(cols.last(), pk, uniq, target, d);
        lemma_balanced_concat(
            fields_text(cols.drop_last(), pk, uniq, target, d),
            field_lines_text(cols.last(), pk, uniq, target, d),
        );
    }
}


/// Referential-action attribute texts hold no braces.
proof fn lemma_action_attrs_bf(st: Option<RefSettings>)
    ensures
        forall|i: int|
            0 <= i < action_attr_texts(st).len() ==> str_brace_free(
                #[trigger] action_attr_texts(st)[i],
            ),
{
    reveal_strlit("on_delete = \"");
    reveal_strlit("on_update = \"");
    reveal_strlit("\"");
    reveal_strlit("Cascade");
    reveal_strlit("Restrict");
    reveal_strlit("SetNull");
    reveal_strlit("SetDefault");
    reveal_strlit("NoAction");
    match st {
        None => {},
        Some(settings) => {
            let od = match settings.on_delete {
                Some(a) => seq!["on_delete = \""@ + action_text(a) + "\""@],
                None => Seq::<Seq<char>>::empty(),
            };
            let ou = match settings.on_update {
                Some(a) => seq!["on_update = \""@ + action_text(a) + "\""@],
                None => Seq::<Seq<char>>::empty(),
            };
            match settings.on_delete {
                Some(a) => {
                    lemma_bf_concat("on_delete = \""@, action_text(a));
                    lemma_bf_concat("on_delete = \""@ + action_text(a), "\""@);
                },
                None => {},
            }
            match settings.on_update {
                Some(a) => {
                    lemma_bf_concat("on_update = \""@, action_text(a));
                    lemma_bf_concat("on_update = \""@ + action_text(a), "\""@);
                },
                None => {},
            }
            lemma_all_bf_concat(od, ou);
        },
    }
}

/// The relation lines of a self relation are balanced.
proof fn lemma_self_rel_lines_balanced(r: RefBlock)
    requires
        converters_brace_free(),
    ensures
        balanced(self_rel_lines(r)),
{
    reveal_strlit("belongs_to = \"Entity\"");
    reveal_strlit("from = \"Column::");
    reveal_strlit("to = \"Column::");
    reveal_strlit("\"");
    reveal_strlit("#[sea_orm(");
    reveal_strlit(")]");
    reveal_strlit(", ");
    reveal_strlit("SelfReferencing,");
    let head = seq![
        "belongs_to = \"Entity\""@,
        "from = \"Column::"@ + pascal_of(r.lhs->0.compositions@[0]@) + "\""@,
        "to = \"Column::"@ + pascal_of(r.rhs.compositions@[0]@) + "\""@,
    ];
    lemma_bf_concat("from = \"Column::"@, pascal_of(r.lhs->0.compositions@[0]@));
    lemma_bf_concat("from = \"Column::"@ + pascal_of(r.lhs->0.compositions@[0]@), "\""@);
    lemma_bf_concat("to = \"Column::"@, pascal_of(r.rhs.compositions@[0]@));
    lemma_bf_concat("to = \"Column::"@ + pascal_of(r.rhs.compositions@[0]@), "\""@);
    assert(forall|i: int| 0 <= i < head.len() ==> str_brace_free(#[trigger] head[i]));
    lemma_action_attrs_bf(r.settings);
    lemma_all_bf_concat(head, action_attr_texts(r.settings));
    lemma_join_bf(self_attr_texts(r), ", "@);
    lemma_bf_concat("#[sea_orm("@, join_texts(self_attr_texts(r), ", "@));
    lemma_bf_concat("#[sea_orm("@ + join_texts(self_attr_texts(r), ", "@), ")]"@);
    lemma_bf_balanced("#[sea_orm("@ + join_texts(self_attr_texts(r), ", "@) + ")]"@);
    lemma_bf_balanced("SelfReferencing,"@);
    lemma_line_balanced("#[sea_orm("@ + join_texts(self_attr_texts(r), ", "@) + ")]"@, 2);
    lemma_line_balanced("SelfReferencing,"@, 2);
    lemma_balanced_concat(
        line_text("#[sea_orm("@ + join_texts(self_attr_texts(r), ", "@) + ")]"@, 2),
        line_text("SelfReferencing,"@, 2),
    );
}

/// The relation lines of an outgoing relation are balanced.
proof fn lemma_outgoing_rel_lines_balanced(r: RefBlock)
    requires
        converters_brace_free(),
    ensures
        balanced(outgoing_rel_lines(r)),
{
    reveal_strlit("belongs_to = \"super::");
    reveal_strlit("::Entity\"");
    reveal_strlit("from = \"Column::");
    reveal_strlit("to = \"super::");
    reveal_strlit("::Column::");
    reveal_strlit("\"");
    reveal_strlit("#[sea_orm(");
    reveal_strlit(")]");
    reveal_strlit(", ");
    reveal_strlit(",");
    let sn = snake_of(r.rhs.table@);
    let a0 = "belongs_to = \"super::"@ + sn + "::Entity\""@;
    let a1 = "from = \"Column::"@ + pascal_of(r.lhs->0.compositions@[0]@) + "\""@;
    let a2 = "to = \"super::"@ + sn + "::Column::"@ + pascal_of(r.rhs.compositions@[0]@)
        + "\""@;
    lemma_bf_concat("belongs_to = \"super::"@, sn);
    lemma_bf_concat("belongs_to = \"super::"@ + sn, "::Entity\""@);
    lemma_bf_concat("from = \"Column::"@, pascal_of(r.lhs->0.compositions@[0]@));
    lemma_bf_concat("from = \"Column::"@ + pascal_of(r.lhs->0.compositions@[0]@), "\""@);
    lemma_bf_concat("to = \"super::"@, sn);
    lemma_bf_concat("to = \"super::"@ + sn, "::Column::"@);
    lemma_bf_concat("to = \"super::"@ + sn + "::Column::"@, pascal_of(r.rhs.compositions@[0]@));
    lemma_bf_concat(
        "to = \"super::"@ + sn + "::Column::"@ + pascal_of(r.rhs.compositions@[0]@),
        "\""@,
    );
    let head = seq![a0, a1, a2];
    assert(forall|i: int| 0 <= i < head.len() ==> str_brace_free(#[trigger] head[i]));
    lemma_action_attrs_bf(r.settings);
    lemma_all_bf_concat(head, action_attr_texts(r.settings));
    lemma_join_bf(outgoing_attr_texts(r), ", "@);
    lemma_bf_concat("#[sea_orm("@, join_texts(outgoing_attr_texts(r), ", "@));
    lemma_bf_concat("#[sea_orm("@ + join_texts(outgoing_attr_texts(r), ", "@), ")]"@);
    lemma_bf_balanced("#[sea_orm("@ + join_texts(outgoing_attr_texts(r), ", "@) + ")]"@);
    lemma_bf_concat(pascal_of(r.rhs.table@), ","@);
    lemma_bf_balanced(pascal_of(r.rhs.table@) + ","@);
    lemma_line_balanced("#[sea_orm("@ + join_texts(outgoing_attr_texts(r), ", "@) + ")]"@, 2);
    lemma_line_balanced(pascal_of(r.rhs.table@) + ","@, 2);
    lemma_balanced_concat(
        line_text("#[sea_orm("@ + join_texts(outgoing_attr_texts(r), ", "@) + ")]"@, 2),
        line_text(pascal_of(r.rhs.table@) + ","@, 2),
    );
}

/// The relation lines of an incoming relation are balanced.
proof fn lemma_incoming_rel_lines_balanced(r: RefBlock)
    requires
        converters_brace_free(),
    ensures
        balanced(incoming_rel_lines(r)),
{
    reveal_strlit("#[sea_orm(has_one = \"super::");
    reveal_strlit("#[sea_orm(has_many = \"super::");
    reveal_strlit("::Entity\")]");
    reveal_strlit(",");
    let sn = snake_of(r.lhs->0.table@);
    if r.rel is One2One {
        lemma_bf_concat("#[sea_orm(has_one = \"super::"@, sn);
        lemma_bf_concat("#[sea_orm(has_one = \"super::"@ + sn, "::Entity\")]"@);
    } else {
        lemma_bf_concat("#[sea_orm(has_many = \"super::"@, sn);
        lemma_bf_concat("#[sea_orm(has_many = \"super::"@ + sn, "::Entity\")]"@);
    }
    lemma_bf_balanced(incoming_attr_text(r));
    lemma_bf_concat(pascal_of(r.lhs->0.table@), ","@);
    lemma_bf_balanced(pascal_of(r.lhs->0.table@) + ","@);
    lemma_line_balanced(incoming_attr_text(r), 2);
    lemma_line_balanced(pascal_of(r.lhs->0.table@) + ","@, 2);
    lemma_balanced_concat(
        line_text(incoming_attr_text(r), 2),
        line_text(pascal_of(r.lhs->0.table@) + ","@, 2),
    );
}

/// The auxiliary blocks of a self relation are balanced.
proof fn lemma_self_aux_balanced()
    ensures
        balanced(self_aux_text()),
{
    reveal_strlit("pub struct SelfReferencingLink");
    reveal_strlit("impl Linked for SelfReferencingLink");
    reveal_strlit("type FromEntity = Entity;");
    reveal_strlit("type ToEntity = Entity;");
    reveal_strlit("fn link(&self) -> Vec<RelationDef>");
    reveal_strlit("vec![Relation::SelfReferencing.def()]");
    lemma_bf_balanced("vec![Relation::SelfReferencing.def()]"@);
    lemma_line_balanced("vec![Relation::SelfReferencing.def()]"@, 3);
    lemma_headed_balanced(
        "fn link(&self) -> Vec<RelationDef>"@,
        2,
        line_text("vec![Relation::SelfReferencing.def()]"@, 3),
    );
    lemma_bf_balanced("type FromEntity = Entity;"@);
    lemma_bf_balanced("type ToEntity = Entity;"@);
    lemma_line_balanced("type FromEntity = Entity;"@, 2);
    lemma_line_balanced("type ToEntity = Entity;"@, 2);
    lemma_blanks_balanced(1);
    lemma_balanced_concat(
        line_text("type FromEntity = Entity;"@, 2),
        line_text("type ToEntity = Entity;"@, 2),
    );
    lemma_balanced_concat(
        line_text("type FromEntity = Entity;"@, 2) + line_text("type ToEntity = Entity;"@, 2),
        blanks(1),
    );
    lemma_balanced_concat(
        line_text("type FromEntity = Entity;"@, 2) + line_text("type ToEntity = Entity;"@, 2)
            + blanks(1),
        headed_text(
            "fn link(&self) -> Vec<RelationDef>"@,
            2,
            line_text("vec![Relation::SelfReferencing.def()]"@, 3),
        ),
    );
    lemma_headed_balanced(
        "impl Linked for SelfReferencingLink"@,
        1,
        line_text("type FromEntity = Entity;"@, 2) + line_text("type ToEntity = Entity;"@, 2)
            + blanks(1) + headed_text(
            "fn link(&self) -> Vec<RelationDef>"@,
            2,
            line_text("vec![Relation::SelfReferencing.def()]"@, 3),
        ),
    );
    assert(balanced(Seq::<char>::empty()));
    lemma_headed_balanced("pub struct SelfReferencingLink"@, 1, Seq::empty());
    lemma_balanced_concat(
        headed_text("pub struct SelfReferencingLink"@, 1, Seq::empty()),
        headed_text(
            "impl Linked for SelfReferencingLink"@,
            1,
            line_text("type FromEntity = Entity;"@, 2) + line_text("type ToEntity = Entity;"@, 2)
                + blanks(1) + headed_text(
                "fn link(&self) -> Vec<RelationDef>"@,
                2,
                line_text("vec![Relation::SelfReferencing.def()]"@, 3),
            ),
        ),
    );
}

/// The auxiliary relation-traversal block is balanced.
proof fn lemma_related_aux_balanced(other_snake: Seq<char>, other_pascal: Seq<char>)
    requires
        str_brace_free(other_snake),
        str_brace_free(other_pascal),
    ensures
        balanced(related_aux_text(other_snake, other_pascal)),
{
    reveal_strlit("impl Related<super::");
    reveal_strlit("::Entity> for Entity");
    reveal_strlit("fn to() -> RelationDef");
    reveal_strlit("Relation::");
    reveal_strlit(".def()");
    lemma_bf_concat("Relation::"@, other_pascal);
    lemma_bf_concat("Relation::"@ + other_pascal, ".def()"@);
    lemma_bf_balanced("Relation::"@ + other_pascal + ".def()"@);
    lemma_line_balanced("Relation::"@ + other_pascal + ".def()"@, 3);
    lemma_headed_balanced(
        "fn to() -> RelationDef"@,
        2,
        line_text("Relation::"@ + other_pascal + ".def()"@, 3),
    );
    lemma_bf_concat("impl Related<super::"@, other_snake);
    lemma_bf_concat("impl Related<super::"@ + other_snake, "::Entity> for Entity"@);
    lemma_headed_balanced(
        "impl Related<super::"@ + other_snake + "::Entity> for Entity"@,
        1,
        headed_text("fn to() -> RelationDef"@, 2, line_text("Relation::"@ + other_pascal + ".def()"@, 3)),
    );
}

/// The grouped self-relation lines are balanced.
proof fn lemma_selfs_lines_balanced(refs: Seq<RefBlock>, idxs: Seq<usize>)
    requires
        converters_brace_free(),
    ensures
        balanced(selfs_lines_text(refs, idxs)),
    decreases idxs.len(),
{
    if idxs.len() > 0 {
        lemma_selfs_lines_balanced(refs, idxs.drop_last());
        lemma_self_rel_lines_balanced(refs[idxs.last() as int]);
        lemma_balanced_concat(
            selfs_lines_text(refs, idxs.drop_last()),
            self_rel_lines(refs[idxs.last() as int]),
        );
    }
}

/// The grouped outgoing-relation lines are balanced.
proof fn lemma_outgoing_lines_balanced(refs: Seq<RefBlock>, idxs: Seq<usize>)
    requires
        converters_brace_free(),
    ensures
        balanced(outgoing_lines_text(refs, idxs)),
    decreases idxs.len(),
{
    if idxs.len() > 0 {
        lemma_outgoing_lines_balanced(refs, idxs.drop_last());
        lemma_outgoing_rel_lines_balanced(refs[idxs.last() as int]);
        lemma_balanced_concat(
            outgoing_lines_text(refs, idxs.drop_last()),
            outgoing_rel_lines(refs[idxs.last() as int]),
        );
    }
}

/// The grouped incoming-relation lines are balanced.
proof fn lemma_incoming_lines_balanced(refs: Seq<RefBlock>, idxs: Seq<usize>)
    requires
        converters_brace_free(),
    ensures
        balanced(incoming_lines_text(refs, idxs)),
    decreases idxs.len(),
{
    if idxs.len() > 0 {
        lemma_incoming_lines_balanced(refs, idxs.drop_last());
        lemma_incoming_rel_lines_balanced(refs[idxs.last() as int]);
        lemma_balanced_concat(
            incoming_lines_text(refs, idxs.drop_last()),
            incoming_rel_lines(refs[idxs.last() as int]),
        );
    }
}

/// The grouped self-relation auxiliary blocks are balanced.
proof fn lemma_selfs_aux_balanced(idxs: Seq<usize>)
    ensures
        balanced(selfs_aux_text(idxs)),
    decreases idxs.len(),
{
    if idxs.len() > 0 {
        lemma_selfs_aux_balanced(idxs.drop_last());
        lemma_self_aux_balanced();
        lemma_balanced_concat(selfs_aux_text(idxs.drop_last()), self_aux_text());
    }
}

/// The grouped outgoing auxiliary blocks are balanced.
proof fn lemma_outgoing_aux_balanced(refs: Seq<RefBlock>, idxs: Seq<usize>)
    requires
        converters_brace_free(),
    ensures
        balanced(outgoing_aux_text(refs, idxs)),
    decreases idxs.len(),
{
    if idxs.len() > 0 {
        lemma_outgoing_aux_balanced(refs, idxs.drop_last());
        lemma_related_aux_balanced(
            snake_of(refs[idxs.last() as int].rhs.table@),
            pascal_of(refs[idxs.last() as int].rhs.table@),
        );
        lemma_balanced_concat(
            outgoing_aux_text(refs, idxs.drop_last()),
            related_aux_text(
                snake_of(refs[idxs.last() as int].rhs.table@),
                pascal_of(refs[idxs.last() as int].rhs.table@),
            ),
        );
    }
}

/// The grouped incoming auxiliary blocks are balanced.
proof fn lemma_incoming_aux_balanced(refs: Seq<RefBlock>, idxs: Seq<usize>)
    requires
        converters_brace_free(),
    ensures
        balanced(incoming_aux_text(refs, idxs)),
    decreases idxs.len(),
{
    if idxs.len() > 0 {
        lemma_incoming_aux_balanced(refs, idxs.drop_last());
        lemma_related_aux_balanced(
            snake_of(refs[idxs.last() as int].lhs->0.table@),
            pascal_of(refs[idxs.last() as int].lhs->0.table@),
        );
        lemma_balanced_concat(
            incoming_aux_text(refs, idxs.drop_last()),
            related_aux_text(
                snake_of(refs[idxs.last() as int].lhs->0.table@),
                pascal_of(refs[idxs.last() as int].lhs->0.table@),
            ),
        );
    }
}

/// One table's entity module text is balanced.
proof fn lemma_table_mod_balanced(t: TableBlock, refs: Seq<RefBlock>, target: Target)
    requires
        converters_brace_free(),
        table_brace_free(t),
    ensures
        balanced(table_mod_text(t, refs, target)),
{
    reveal_strlit("pub mod ");
    reveal_strlit("use sea_orm::entity::prelude::*;");
    reveal_strlit("#[derive(Clone, Debug, PartialEq, DeriveEntityModel)]");
    reveal_strlit("#[sea_orm(table_name = \"");
    reveal_strlit("\", schema_name = \"");
    reveal_strlit("\")]");
    reveal_strlit("#[derive(Copy, Clone, Debug, EnumIter, DeriveRelation)]");
    reveal_strlit("pub struct Model");
    reveal_strlit("pub enum Relation");
    reveal_strlit("impl ActiveModelBehavior for ActiveModel {}");
    reveal_strlit("public");
    let behavior = "impl ActiveModelBehavior for ActiveModel {}"@;
    assert(behavior =~= behavior.subrange(0, 41) + behavior.subrange(41, 43));
    assert(str_brace_free(behavior.subrange(0, 41)));
    assert(behavior.subrange(41, 43) =~= seq!['{', '}']);
    assert(seq!['{', '}'] =~= seq!['{'] + seq!['}']);
    lemma_count_absent(behavior.subrange(0, 41), '{');
    lemma_count_absent(behavior.subrange(0, 41), '}');
    lemma_char_count_single('{', '{');
    lemma_char_count_single('{', '}');
    lemma_char_count_single('}', '{');
    lemma_char_count_single('}', '}');
    lemma_char_count_concat(seq!['{'], seq!['}'], '{');
    lemma_char_count_concat(seq!['{'], seq!['}'], '}');
    lemma_char_count_concat(behavior.subrange(0, 41), behavior.subrange(41, 43), '{');
    lemma_char_count_concat(behavior.subrange(0, 41), behavior.subrange(41, 43), '}');
    assert(balanced(behavior));
    lemma_line_balanced(behavior, 1);
    let header = "pub mod "@ + snake_of(t.ident.name@);
    lemma_bf_concat("pub mod "@, snake_of(t.ident.name@));
    let table_attr = "#[sea_orm(table_name = \""@ + t.ident.name@ + "\", schema_name = \""@
        + schema_name_text(t.ident.schema) + "\")]"@;
    assert(str_brace_free(schema_name_text(t.ident.schema)));
    lemma_bf_concat("#[sea_orm(table_name = \""@, t.ident.name@);
    lemma_bf_concat("#[sea_orm(table_name = \""@ + t.ident.name@, "\", schema_name = \""@);
    lemma_bf_concat(
        "#[sea_orm(table_name = \""@ + t.ident.name@ + "\", schema_name = \""@,
        schema_name_text(t.ident.schema),
    );
    lemma_bf_concat(
        "#[sea_orm(table_name = \""@ + t.ident.name@ + "\", schema_name = \""@
            + schema_name_text(t.ident.schema),
        "\")]"@,
    );
    lemma_bf_balanced(table_attr);
    lemma_bf_balanced("use sea_orm::entity::prelude::*;"@);
    lemma_bf_balanced("#[derive(Clone, Debug, PartialEq, DeriveEntityModel)]"@);
    lemma_bf_balanced("#[derive(Copy, Clone, Debug, EnumIter, DeriveRelation)]"@);
    let l_use = line_text("use sea_orm::entity::prelude::*;"@, 1);
    let l_d1 = line_text("#[derive(Clone, Debug, PartialEq, DeriveEntityModel)]"@, 1);
    let l_attr = line_text(table_attr, 1);
    let l_d2 = line_text("#[derive(Copy, Clone, Debug, EnumIter, DeriveRelation)]"@, 1);
    lemma_line_balanced("use sea_orm::entity::prelude::*;"@, 1);
    lemma_line_balanced("#[derive(Clone, Debug, PartialEq, DeriveEntityModel)]"@, 1);
    lemma_line_balanced(table_attr, 1);
    lemma_line_balanced("#[derive(Copy, Clone, Debug, EnumIter, DeriveRelation)]"@, 1);
    lemma_fields_balanced(
        t.cols@,
        crate::schema::pk_cols_of(t.indexes@),
        crate::schema::unique_cols_of(t.indexes@),
        target,
        2,
    );
    lemma_headed_balanced(
        "pub struct Model"@,
        1,
        fields_text(
            t.cols@,
            crate::schema::pk_cols_of(t.indexes@),
            crate::schema::unique_cols_of(t.indexes@),
            target,
            2,
        ),
    );
    lemma_selfs_lines_balanced(refs, crate::refs::self_idx_of(refs, t.ident.name@));
    lemma_outgoing_lines_balanced(refs, crate::refs::outgoing_idx_of(refs, t.ident.name@));
    lemma_incoming_lines_balanced(refs, crate::refs::incoming_idx_of(refs, t.ident.name@));
    lemma_balanced_concat(
        selfs_lines_text(refs, crate::refs::self_idx_of(refs, t.ident.name@)),
        outgoing_lines_text(refs, crate::refs::outgoing_idx_of(refs, t.ident.name@)),
    );
    lemma_balanced_concat(
        selfs_lines_text(refs, crate::refs::self_idx_of(refs, t.ident.name@))
            + outgoing_lines_text(refs, crate::refs::outgoing_idx_of(refs, t.ident.name@)),
        incoming_lines_text(refs, crate::refs::incoming_idx_of(refs, t.ident.name@)),
    );
    lemma_headed_balanced("pub enum Relation"@, 1, rel_lines_text(refs, t.ident.name@));
    lemma_selfs_aux_balanced(crate::refs::self_idx_of(refs, t.ident.name@));
    lemma_outgoing_aux_balanced(refs, crate::refs::outgoing_idx_of(refs, t.ident.name@));
    lemma_incoming_aux_balanced(refs, crate::refs::incoming_idx_of(refs, t.ident.name@));
    lemma_balanced_concat(
        selfs_aux_text(crate::refs::self_idx_of(refs, t.ident.name@)),
        outgoing_aux_text(refs, crate::refs::outgoing_idx_of(refs, t.ident.name@)),
    );
    lemma_balanced_concat(
        selfs_aux_text(crate::refs::self_idx_of(refs, t.ident.name@)) + outgoing_aux_text(
            refs,
            crate::refs::outgoing_idx_of(refs, t.ident.name@),
        ),
        incoming_aux_text(refs, crate::refs::incoming_idx_of(refs, t.ident.name@)),
    );
    lemma_blanks_balanced(1);
    let inner = l_use + blanks(1) + l_d1 + l_attr + headed_text(
        "pub struct Model"@,
        1,
        fields_text(
            t.cols@,
            crate::schema::pk_cols_of(t.indexes@),
            crate::schema::unique_cols_of(t.indexes@),
            target,
            2,
        ),
    ) + blanks(1) + l_d2 + headed_text("pub enum Relation"@, 1, rel_lines_text(refs, t.ident.name@))
        + aux_text(refs, t.ident.name@) + blanks(1) + line_text(behavior, 1);
    lemma_balanced_concat(l_use, blanks(1));
    lemma_balanced_concat(l_use + blanks(1), l_d1);
    lemma_balanced_concat(l_use + blanks(1) + l_d1, l_attr);
    lemma_balanced_concat(
        l_use + blanks(1) + l_d1 + l_attr,
        headed_text(
            "pub struct Model"@,
            1,
            fields_text(
                t.cols@,
                crate::schema::pk_cols_of(t.indexes@),
                crate::schema::unique_cols_of(t.indexes@),
                target,
                2,
            ),
        ),
    );
    let s5 = l_use + blanks(1) + l_d1 + l_attr + headed_text(
        "pub struct Model"@,
        1,
        fields_text(
            t.cols@,
            crate::schema::pk_cols_of(t.indexes@),
            crate::schema::unique_cols_of(t.indexes@),
            target,
            2,
        ),
    );
    lemma_balanced_concat(s5, blanks(1));
    lemma_balanced_concat(s5 + blanks(1), l_d2);
    lemma_balanced_concat(
        s5 + blanks(1) + l_d2,
        headed_text("pub enum Relation"@, 1, rel_lines_text(refs, t.ident.name@)),
    );
    let s8 = s5 + blanks(1) + l_d2 + headed_text(
        "pub enum Relation"@,
        1,
        rel_lines_text(refs, t.ident.name@),
    );
    lemma_balanced_concat(s8, aux_text(refs, t.ident.name@));
    lemma_balanced_concat(s8 + aux_text(refs, t.ident.name@), blanks(1));
    lemma_balanced_concat(s8 + aux_text(refs, t.ident.name@) + blanks(1), line_text(behavior, 1));
    assert(balanced(inner));
    lemma_headed_balanced(header, 0, inner);
    assert(table_mod_text(t, refs, target) == headed_text(header, 0, inner));
}

/// The variant lines of an enumeration are balanced.
proof fn lemma_enum_values_balanced(vals: Seq<String>)
    requires
        converters_brace_free(),
        forall|i: int| 0 <= i < vals.len() ==> str_brace_free(#[trigger] vals[i]@),
    ensures
        balanced(enum_values_text(vals)),
    decreases vals.len(),
{
    reveal_strlit("#[sea_orm(string_value = \"");
    reveal_strlit("\")]");
    reveal_strlit(",");
    if vals.len() > 0 {
        lemma_enum_values_balanced(vals.drop_last());
        lemma_bf_concat("#[sea_orm(string_value = \""@, vals.last()@);
        lemma_bf_concat("#[sea_orm(string_value = \""@ + vals.last()@, "\")]"@);
        lemma_bf_balanced("#[sea_orm(string_value = \""@ + vals.last()@ + "\")]"@);
        lemma_bf_concat(pascal_of(vals.last()@), ","@);
        lemma_bf_balanced(pascal_of(vals.last()@) + ","@);
        lemma_line_balanced("#[sea_orm(string_value = \""@ + vals.last()@ + "\")]"@, 1);
        lemma_line_balanced(pascal_of(vals.last()@) + ","@, 1);
        lemma_balanced_concat(
            enum_values_text(vals.drop_last()),
            line_text("#[sea_orm(string_value = \""@ + vals.last()@ + "\")]"@, 1),
        );
        lemma_balanced_concat(
            enum_values_text(vals.drop_last()) + line_text(
                "#[sea_orm(string_value = \""@ + vals.last()@ + "\")]"@,
                1,
            ),
            line_text(pascal_of(vals.last()@) + ","@, 1),
        );
    }
}

/// One enumeration declaration is balanced.
proof fn lemma_enum_decl_balanced(e: EnumBlock)
    requires
        converters_brace_free(),
        enum_brace_free(e),
    ensures
        balanced(enum_decl_text(e)),
{
    reveal_strlit("#[derive(Clone, Debug, PartialEq, EnumIter, DeriveActiveEnum)]");
    reveal_strlit("#[sea_orm(rs_type = \"String\", db_type = \"Enum\", enum_name = \"");
    reveal_strlit("\", schema_name = \"");
    reveal_strlit("\")]");
    reveal_strlit("pub enum ");
    reveal_strlit("public");
    lemma_blanks_balanced(1);
    lemma_bf_balanced("#[derive(Clone, Debug, PartialEq, EnumIter, DeriveActiveEnum)]"@);
    lemma_line_balanced("#[derive(Clone, Debug, PartialEq, EnumIter, DeriveActiveEnum)]"@, 0);
    let sattr = "#[sea_orm(rs_type = \"String\", db_type = \"Enum\", enum_name = \""@ + e.name@
        + "\", schema_name = \""@ + schema_name_text(e.schema) + "\")]"@;
    assert(str_brace_free(schema_name_text(e.schema)));
    lemma_bf_concat(
        "#[sea_orm(rs_type = \"String\", db_type = \"Enum\", enum_name = \""@,
        e.name@,
    );
    lemma_bf_concat(
        "#[sea_orm(rs_type = \"String\", db_type = \"Enum\", enum_name = \""@ + e.name@,
        "\", schema_name = \""@,
    );
    lemma_bf_concat(
        "#[sea_orm(rs_type = \"String\", db_type = \"Enum\", enum_name = \""@ + e.name@
            + "\", schema_name = \""@,
        schema_name_text(e.schema),
    );
    lemma_bf_concat(
        "#[sea_orm(rs_type = \"String\", db_type = \"Enum\", enum_name = \""@ + e.name@
            + "\", schema_name = \""@ + schema_name_text(e.schema),
        "\")]"@,
    );
    lemma_bf_balanced(sattr);
    lemma_line_balanced(sattr, 0);
    lemma_enum_values_balanced(e.values@);
    lemma_bf_concat("pub enum "@, pascal_of(e.name@));
    lemma_headed_balanced("pub enum "@ + pascal_of(e.name@), 0, enum_values_text(e.values@));
    lemma_balanced_concat(
        blanks(1),
        line_text("#[derive(Clone, Debug, PartialEq, EnumIter, DeriveActiveEnum)]"@, 0),
    );
    lemma_balanced_concat(
        blanks(1) + line_text("#[derive(Clone, Debug, PartialEq, EnumIter, DeriveActiveEnum)]"@, 0),
        line_text(sattr, 0),
    );
    lemma_balanced_concat(
        blanks(1) + line_text("#[derive(Clone, Debug, PartialEq, EnumIter, DeriveActiveEnum)]"@, 0)
            + line_text(sattr, 0),
        headed_text("pub enum "@ + pascal_of(e.name@), 0, enum_values_text(e.values@)),
    );
}

/// The table modules of a schema are balanced.
proof fn lemma_tables_balanced(ts: Seq<TableBlock>, refs: Seq<RefBlock>, target: Target)
    requires
        converters_brace_free(),
        forall|i: int| 0 <= i < ts.len() ==> table_brace_free(#[trigger] ts[i]),
    ensures
        balanced(tables_text(ts, refs, target)),
    decreases ts.len(),
{
    if ts.len() > 0 {
        lemma_tables_balanced(ts.drop_last(), refs, target);
        lemma_table_mod_balanced(ts.last(), refs, target);
        lemma_blanks_balanced(1);
        lemma_balanced_concat(tables_text(ts.drop_last(), refs, target), blanks(1));
        lemma_balanced_concat(
            tables_text(ts.drop_last(), refs, target) + blanks(1),
            table_mod_text(ts.last(), refs, target),
        );
    }
}

/// The enumeration declarations of a schema are balanced.
proof fn lemma_enums_balanced(es: Seq<EnumBlock>)
    requires
        converters_brace_free(),
        forall|i: int| 0 <= i < es.len() ==> enum_brace_free(#[trigger] es[i]),
    ensures
        balanced(enums_decls_text(es)),
    decreases es.len(),
{
    if es.len() > 0 {
        lemma_enums_balanced(es.drop_last());
        lemma_enum_decl_balanced(es.last());
        lemma_balanced_concat(enums_decls_text(es.drop_last()), enum_decl_text(es.last()));
    }
}

/// For every schema whose own names hold no brace characters — and with
/// case converters that return brace-free names, as inflector's do — the
/// rendered output has 1:1 matching open and close block delimiters.
pub proof fn lemma_output_balanced(s: SchemaBlock, target: Target, tool: Seq<char>, ver: Seq<char>)
    requires
        converters_brace_free(),
        schema_brace_free(s),
        str_brace_free(tool),
        str_brace_free(ver),
    ensures
        balanced(output_text(s, target, tool, ver)),
{
    reveal_strlit("//! Generated by ");
    reveal_strlit("use sea_orm::entity::prelude::*;");
    lemma_bf_concat("//! Generated by "@, tool);
    lemma_bf_concat("//! Generated by "@ + tool, seq![' ']);
    lemma_bf_concat("//! Generated by "@ + tool + seq![' '], ver);
    lemma_bf_balanced(banner_text(tool, ver));
    lemma_line_balanced(banner_text(tool, ver), 0);
    lemma_blanks_balanced(1);
    lemma_bf_balanced("use sea_orm::entity::prelude::*;"@);
    lemma_line_balanced("use sea_orm::entity::prelude::*;"@, 0);
    lemma_tables_balanced(s.tables@, s.refs@, target);
    lemma_enums_balanced(s.enums@);
    lemma_balanced_concat(line_text(banner_text(tool, ver), 0), blanks(1));
    lemma_balanced_concat(
        line_text(banner_text(tool, ver), 0) + blanks(1),
        line_text("use sea_orm::entity::prelude::*;"@, 0),
    );
    lemma_balanced_concat(
        line_text(banner_text(tool, ver), 0) + blanks(1) + line_text(
            "use sea_orm::entity::prelude::*;"@,
            0,
        ),
        tables_text(s.tables@, s.refs@, target),
    );
    lemma_balanced_concat(
        line_text(banner_text(tool, ver), 0) + blanks(1) + line_text(
            "use sea_orm::entity::prelude::*;"@,
            0,
        ) + tables_text(s.tables@, s.refs@, target),
        enums_decls_text(s.enums@),
    );
}

/// A successful transpilation of a brace-free schema returns balanced
/// text.
pub proof fn lemma_transpile_result_balanced(
    s: SchemaBlock,
    target: Target,
    tool: Seq<char>,
    ver: Seq<char>,
    r: Result<String, TranspileError>,
)
    requires
        converters_brace_free(),
        schema_brace_free(s),
        str_brace_free(tool),
        str_brace_free(ver),
        result_view(r) == spec_transpile(s, target, tool, ver),
        r is Ok,
    ensures
        balanced(r->Ok_0@),
{
    lemma_output_balanced(s, target, tool, ver);
}

} // verus!

