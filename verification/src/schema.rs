//! The semantic schema model the transpiler consumes: tables, columns,
//! indexes and enumerations, the per-table derived index sets, the target
//! dialect's type mapping, and canonical rendering of default literals.

use vstd::prelude::*;
use vstd::string::StringExecFns;
use crate::names::pascal_of;
use crate::names::to_pascal;
use crate::refs::RefBlock;

verus! {

/// Database entity target dialect.
#[derive(Debug, PartialEq, Eq, Clone, Copy)]
pub enum Target {
    Postgres,
}

/// Semantic column type.
#[derive(Debug, PartialEq, Eq, Clone)]
pub enum ColType {
    Undef,
    Char,
    VarChar,
    SmallInt,
    Integer,
    BigInt,
    Real,
    DoublePrecision,
    Bool,
    ByteArray,
    Date,
    Text,
    Time,
    Timestamp,
    Timestamptz,
    Uuid,
    Json,
    Jsonb,
    Decimal,
    Enum(String),
}

/// A default literal of a column: a quoted string, a raw literal kept in
/// its canonical textual form, an integer, a boolean, or null.
#[derive(Debug, PartialEq, Eq, Clone)]
pub enum DefaultValue {
    Str(String),
    Raw(String),
    Int(i64),
    Bool(bool),
    Null,
}

/// Column-level settings.
#[derive(Debug, PartialEq, Eq, Clone)]
pub struct ColSettings {
    pub is_pk: bool,
    pub is_incremental: bool,
    pub is_nullable: bool,
    pub is_unique: bool,
    pub default: Option<DefaultValue>,
}

/// One column: name, semantic type and settings.
#[derive(Debug, PartialEq, Eq, Clone)]
pub struct TableColumn {
    pub name: String,
    pub col_type: ColType,
    pub settings: ColSettings,
}

/// A table identifier: name and optional schema.
#[derive(Debug, PartialEq, Eq, Clone)]
pub struct TableIdent {
    pub name: String,
    pub schema: Option<String>,
}

/// One index definition: the named columns it covers and whether it makes
/// them primary or unique.
#[derive(Debug, PartialEq, Eq, Clone)]
pub struct IndexDef {
    pub cols: Vec<String>,
    pub is_pk: bool,
    pub is_unique: bool,
}

/// One table: identifier, ordered columns, index definitions.
#[derive(Debug, PartialEq, Eq, Clone)]
pub struct TableBlock {
    pub ident: TableIdent,
    pub cols: Vec<TableColumn>,
    pub indexes: Vec<IndexDef>,
}

/// One enumeration: identifier and ordered raw values.
#[derive(Debug, PartialEq, Eq, Clone)]
pub struct EnumBlock {
    pub name: String,
    pub schema: Option<String>,
    pub values: Vec<String>,
}

/// The root of the semantic model: ordered tables, ordered enumerations,
/// and the schema-wide relation list.
#[derive(Debug, PartialEq, Eq, Clone)]
pub struct SchemaBlock {
    pub tables: Vec<TableBlock>,
    pub enums: Vec<EnumBlock>,
    pub refs: Vec<RefBlock>,
}

/// Whether `xs` holds a string whose characters are `n`.
pub open spec fn has_name(xs: Seq<String>, n: Seq<char>) -> bool {
    exists|i: int| 0 <= i < xs.len() && xs[i]@ == n
}

/// Whether `xs` holds the name `n`.
pub fn contains_name(xs: &Vec<String>, n: &String) -> (b: bool)
    ensures
        b == has_name(xs@, n@),
{
    let m = xs.len();
    let mut i: usize = 0;
    while i < m
        invariant
            m == xs@.len(),
            i <= m,
            forall|k: int| 0 <= k < i ==> xs@[k]@ != n@,
        decreases m - i,
    {
        if xs[i] == *n {
            return true;
        }
        i = i + 1;
    }
    false
}

/// The column names made primary by the index definitions, in order.
pub open spec fn pk_cols_of(defs: Seq<IndexDef>) -> Seq<String>
    decreases defs.len(),
{
    if defs.len() == 0 {
        Seq::empty()
    } else {
        pk_cols_of(defs.drop_last()) + (if defs.last().is_pk {
            defs.last().cols@
        } else {
            Seq::empty()
        })
    }
}

/// The column names made unique by the index definitions, in order.
pub open spec fn unique_cols_of(defs: Seq<IndexDef>) -> Seq<String>
    decreases defs.len(),
{
    if defs.len() == 0 {
        Seq::empty()
    } else {
        unique_cols_of(defs.drop_last()) + (if defs.last().is_unique {
            defs.last().cols@
        } else {
            Seq::empty()
        })
    }
}

/// The per-table derived index sets: column names implied primary or
/// unique by the table's index definitions rather than column settings.
pub struct MetaIndexer {
    pub pk_list: Vec<String>,
    pub unique_list: Vec<String>,
}

impl MetaIndexer {
    /// Well-formedness against the index definitions it was derived from.
    pub open spec fn wf(self, defs: Seq<IndexDef>) -> bool {
        &&& self.pk_list@ == pk_cols_of(defs)
        &&& self.unique_list@ == unique_cols_of(defs)
    }

    /// Derives the index sets of a table, once, from its index
    /// definitions.
    pub fn build(defs: &Vec<IndexDef>) -> (m: MetaIndexer)
        ensures
            m.wf(defs@),
    {
        let mut pk_list: Vec<String> = Vec::new();
        let mut unique_list: Vec<String> = Vec::new();
        let n = defs.len();
        let mut i: usize = 0;
        while i < n
            invariant
                n == defs@.len(),
                i <= n,
                pk_list@ == pk_cols_of(defs@.take(i as int)),
                unique_list@ == unique_cols_of(defs@.take(i as int)),
            decreases n - i,
        {
            proof {
                assert(defs@.take(i + 1).drop_last() =~= defs@.take(i as int));
            }
            let d = &defs[i];
            if d.is_pk {
                append_names(&mut pk_list, &d.cols);
            }
            if d.is_unique {
                append_names(&mut unique_list, &d.cols);
            }
            proof {
                assert(pk_list@ =~= pk_cols_of(defs@.take(i + 1)));
                assert(unique_list@ =~= unique_cols_of(defs@.take(i + 1)));
            }
            i = i + 1;
        }
        proof {
            assert(defs@.take(n as int) =~= defs@);
        }
        MetaIndexer { pk_list, unique_list }
    }
}

/// Appends every name of `src` to `dst`.
fn append_names(dst: &mut Vec<String>, src: &Vec<String>)
    ensures
        final(dst)@ == old(dst)@ + src@,
{
    proof {
        assert(dst@ =~= old(dst)@ + src@.take(0));
    }
    let n = src.len();
    let mut i: usize = 0;
    while i < n
        invariant
            n == src@.len(),
            i <= n,
            dst@ == old(dst)@ + src@.take(i as int),
        decreases n - i,
    {
        dst.push(src[i].clone());
        proof {
            assert(old(dst)@ + src@.take(i as int).push(src@[i as int]) =~= old(dst)@ + src@.take(
                i + 1,
            ));
            assert(dst@ =~= old(dst)@ + src@.take(i + 1));
        }
        i = i + 1;
    }
    proof {
        assert(src@.take(n as int) =~= src@);
    }
}

/// The decimal digit character for `n < 10`.
pub open spec fn dec_digit(n: nat) -> char {
    if n == 0 {
        '0'
    } else if n == 1 {
        '1'
    } else if n == 2 {
        '2'
    } else if n == 3 {
        '3'
    } else if n == 4 {
        '4'
    } else if n == 5 {
        '5'
    } else if n == 6 {
        '6'
    } else if n == 7 {
        '7'
    } else if n == 8 {
        '8'
    } else {
        '9'
    }
}

/// The decimal digits of a natural number, most significant first.
pub open spec fn dec_nat(n: nat) -> Seq<char>
    decreases n,
{
    if n < 10 {
        seq![dec_digit(n)]
    } else {
        dec_nat(n / 10).push(dec_digit(n % 10))
    }
}

/// The canonical decimal form of an integer.
pub open spec fn dec_int(v: int) -> Seq<char> {
    if v < 0 {
        seq!['-'] + dec_nat((-v) as nat)
    } else {
        dec_nat(v as nat)
    }
}

/// The decimal digit as a string slice.
fn digit_str(d: u64) -> (r: &'static str)
    requires
        d < 10,
    ensures
        r@ == seq![dec_digit(d as nat)],
{
    proof {
        reveal_strlit("0");
        reveal_strlit("1");
        reveal_strlit("2");
        reveal_strlit("3");
        reveal_strlit("4");
        reveal_strlit("5");
        reveal_strlit("6");
        reveal_strlit("7");
        reveal_strlit("8");
        reveal_strlit("9");
        assert("0"@ =~= seq!['0']);
        assert("1"@ =~= seq!['1']);
        assert("2"@ =~= seq!['2']);
        assert("3"@ =~= seq!['3']);
        assert("4"@ =~= seq!['4']);
        assert("5"@ =~= seq!['5']);
        assert("6"@ =~= seq!['6']);
        assert("7"@ =~= seq!['7']);
        assert("8"@ =~= seq!['8']);
        assert("9"@ =~= seq!['9']);
    }
    if d == 0 {
        "0"
    } else if d == 1 {
        "1"
    } else if d == 2 {
        "2"
    } else if d == 3 {
        "3"
    } else if d == 4 {
        "4"
    } else if d == 5 {
        "5"
    } else if d == 6 {
        "6"
    } else if d == 7 {
        "7"
    } else if d == 8 {
        "8"
    } else {
        "9"
    }
}

/// Formats a natural number in decimal.
pub fn u64_dec(n: u64) -> (s: String)
    ensures
        s@ == dec_nat(n as nat),
    decreases n,
{
    if n < 10 {
        String::from_str(digit_str(n))
    } else {
        let mut s = u64_dec(n / 10);
        s.append(digit_str(n % 10));
        proof {
            assert(dec_nat((n / 10) as nat) + seq![dec_digit((n % 10) as nat)] =~= dec_nat(
                (n / 10) as nat,
            ).push(dec_digit((n % 10) as nat)));
            assert((n as nat) / 10 == (n / 10) as nat);
            assert((n as nat) % 10 == (n % 10) as nat);
        }
        s
    }
}

/// Formats an integer in decimal, with a leading minus sign when
/// negative.
pub fn i64_dec(v: i64) -> (s: String)
    ensures
        s@ == dec_int(v as int),
{
    if v >= 0 {
        u64_dec(v as u64)
    } else {
        let abs: u64 = ((-(v + 1)) as u64) + 1;
        proof {
            assert(abs as nat == (-(v as int)) as nat);
        }
        let mut s = String::from_str("-");
        let digits = u64_dec(abs);
        s.append(digits.as_str());
        proof {
            reveal_strlit("-");
            assert(s@ =~= seq!['-'] + dec_nat((-(v as int)) as nat));
        }
        s
    }
}

/// The native mapped type of a semantic type under the target dialect.
pub open spec fn rust_type_of(t: ColType, target: Target) -> Seq<char> {
    match t {
        ColType::Undef => "String"@,
        ColType::Char => "String"@,
        ColType::VarChar => "String"@,
        ColType::SmallInt => "i16"@,
        ColType::Integer => "i32"@,
        ColType::BigInt => "i64"@,
        ColType::Real => "f32"@,
        ColType::DoublePrecision => "f64"@,
        ColType::Bool => "bool"@,
        ColType::ByteArray => "Vec<u8>"@,
        ColType::Date => "Date"@,
        ColType::Text => "String"@,
        ColType::Time => "Time"@,
        ColType::Timestamp => "DateTime"@,
        ColType::Timestamptz => "DateTimeWithTimeZone"@,
        ColType::Uuid => "Uuid"@,
        ColType::Json => "Json"@,
        ColType::Jsonb => "Json"@,
        ColType::Decimal => "Decimal"@,
        ColType::Enum(n) => pascal_of(n@),
    }
}

/// The explicit column-type attribute value of a semantic type, if the
/// type maps to one under the target dialect.
pub open spec fn col_type_attr_of(t: ColType, target: Target) -> Option<Seq<char>> {
    match t {
        ColType::Char => Some("Char"@),
        ColType::Text => Some("Text"@),
        ColType::Json => Some("Json"@),
        ColType::Jsonb => Some("JsonBinary"@),
        ColType::ByteArray => Some("Binary"@),
        _ => None,
    }
}

/// The native mapped type of a semantic type.
pub fn rust_type(t: &ColType, target: &Target) -> (r: String)
    ensures
        r@ == rust_type_of(*t, *target),
{
    match target {
        Target::Postgres => {},
    }
    match t {
        ColType::Undef => String::from_str("String"),
        ColType::Char => String::from_str("String"),
        ColType::VarChar => String::from_str("String"),
        ColType::SmallInt => String::from_str("i16"),
        ColType::Integer => String::from_str("i32"),
        ColType::BigInt => String::from_str("i64"),
        ColType::Real => String::from_str("f32"),
        ColType::DoublePrecision => String::from_str("f64"),
        ColType::Bool => String::from_str("bool"),
        ColType::ByteArray => String::from_str("Vec<u8>"),
        ColType::Date => String::from_str("Date"),
        ColType::Text => String::from_str("String"),
        ColType::Time => String::from_str("Time"),
        ColType::Timestamp => String::from_str("DateTime"),
        ColType::Timestamptz => String::from_str("DateTimeWithTimeZone"),
        ColType::Uuid => String::from_str("Uuid"),
        ColType::Json => String::from_str("Json"),
        ColType::Jsonb => String::from_str("Json"),
        ColType::Decimal => String::from_str("Decimal"),
        ColType::Enum(n) => to_pascal(n.as_str()),
    }
}

/// The explicit column-type attribute value, if any.
pub fn col_type_attr(t: &ColType, target: &Target) -> (r: Option<String>)
    ensures
        r is Some <==> col_type_attr_of(*t, *target) is Some,
        r is Some ==> r->0@ == col_type_attr_of(*t, *target)->0,
{
    match target {
        Target::Postgres => {},
    }
    match t {
        ColType::Char => Some(String::from_str("Char")),
        ColType::Text => Some(String::from_str("Text")),
        ColType::Json => Some(String::from_str("Json")),
        ColType::Jsonb => Some(String::from_str("JsonBinary")),
        ColType::ByteArray => Some(String::from_str("Binary")),
        _ => None,
    }
}

/// The canonical text of a default literal: strings are quoted, raw
/// literals pass through, the rest use their canonical form.
pub open spec fn default_text(d: DefaultValue) -> Seq<char> {
    match d {
        DefaultValue::Str(s) => seq!['"'] + s@ + seq!['"'],
        DefaultValue::Raw(s) => s@,
        DefaultValue::Int(v) => dec_int(v as int),
        DefaultValue::Bool(b) => if b {
            "true"@
        } else {
            "false"@
        },
        DefaultValue::Null => "null"@,
    }
}

/// Renders a default literal canonically.
pub fn render_default(d: &DefaultValue) -> (r: String)
    ensures
        r@ == default_text(*d),
{
    match d {
        DefaultValue::Str(s) => {
            let mut out = String::from_str("\"");
            out.append(s.as_str());
            out.append("\"");
            proof {
                reveal_strlit("\"");
                assert(out@ =~= seq!['"'] + s@ + seq!['"']);
            }
            out
        },
        DefaultValue::Raw(s) => s.clone(),
        DefaultValue::Int(v) => i64_dec(*v),
        DefaultValue::Bool(b) => {
            if *b {
                String::from_str("true")
            } else {
                String::from_str("false")
            }
        },
        DefaultValue::Null => String::from_str("null"),
    }
}


/// Whether some index definition flagged primary covers the column `n`.
pub open spec fn idx_pk_mem(defs: Seq<IndexDef>, n: Seq<char>) -> bool {
    exists|i: int, j: int|
        0 <= i < defs.len() && defs[i].is_pk && 0 <= j < defs[i].cols@.len() && defs[i].cols@[j]@
            == n
}

/// Whether some index definition flagged unique covers the column `n`.
pub open spec fn idx_unique_mem(defs: Seq<IndexDef>, n: Seq<char>) -> bool {
    exists|i: int, j: int|
        0 <= i < defs.len() && defs[i].is_unique && 0 <= j < defs[i].cols@.len()
            && defs[i].cols@[j]@ == n
}

/// Membership in a concatenation of name lists.
proof fn lemma_has_name_concat(a: Seq<String>, b: Seq<String>, n: Seq<char>)
    ensures
        has_name(a + b, n) <==> (has_name(a, n) || has_name(b, n)),
{
    if has_name(a, n) {
        let i = choose|i: int| 0 <= i < a.len() && a[i]@ == n;
        assert((a + b)[i]@ == n);
    }
    if has_name(b, n) {
        let i = choose|i: int| 0 <= i < b.len() && b[i]@ == n;
        assert((a + b)[a.len() + i]@ == n);
    }
    if has_name(a + b, n) {
        let i = choose|i: int| 0 <= i < (a + b).len() && (a + b)[i]@ == n;
        if i < a.len() {
            assert(a[i]@ == n);
        } else {
            assert(b[i - a.len()]@ == n);
        }
    }
}

/// The derived primary set names exactly the columns that some index
/// definition flagged primary covers.
pub proof fn lemma_pk_cols_mem(defs: Seq<IndexDef>, n: Seq<char>)
    ensures
        has_name(pk_cols_of(defs), n) <==> idx_pk_mem(defs, n),
    decreases defs.len(),
{
    if defs.len() > 0 {
        lemma_pk_cols_mem(defs.drop_last(), n);
        let tail: Seq<String> = if defs.last().is_pk {
            defs.last().cols@
        } else {
            Seq::empty()
        };
        lemma_has_name_concat(pk_cols_of(defs.drop_last()), tail, n);
        if idx_pk_mem(defs.drop_last(), n) {
            let (i, j) = choose|i: int, j: int|
                0 <= i < defs.drop_last().len() && defs.drop_last()[i].is_pk && 0 <= j
                    < defs.drop_last()[i].cols@.len() && defs.drop_last()[i].cols@[j]@ == n;
            assert(defs[i] == defs.drop_last()[i]);
            assert(idx_pk_mem(defs, n));
        }
        if defs.last().is_pk && has_name(defs.last().cols@, n) {
            let j = choose|j: int| 0 <= j < defs.last().cols@.len() && defs.last().cols@[j]@ == n;
            assert(defs[defs.len() - 1].is_pk && defs[defs.len() - 1].cols@[j]@ == n);
            assert(idx_pk_mem(defs, n));
        }
        if idx_pk_mem(defs, n) {
            let (i, j) = choose|i: int, j: int|
                0 <= i < defs.len() && defs[i].is_pk && 0 <= j < defs[i].cols@.len()
                    && defs[i].cols@[j]@ == n;
            if i < defs.len() - 1 {
                assert(defs.drop_last()[i] == defs[i]);
                assert(idx_pk_mem(defs.drop_last(), n));
            } else {
                assert(defs.last().is_pk && defs.last().cols@[j]@ == n);
            }
        }
    }
}

/// The derived unique set names exactly the columns that some index
/// definition flagged unique covers.
pub proof fn lemma_unique_cols_mem(defs: Seq<IndexDef>, n: Seq<char>)
    ensures
        has_name(unique_cols_of(defs), n) <==> idx_unique_mem(defs, n),
    decreases defs.len(),
{
    if defs.len() > 0 {
        lemma_unique_cols_mem(defs.drop_last(), n);
        let tail: Seq<String> = if defs.last().is_unique {
            defs.last().cols@
        } else {
            Seq::empty()
        };
        lemma_has_name_concat(unique_cols_of(defs.drop_last()), tail, n);
        if idx_unique_mem(defs.drop_last(), n) {
            let (i, j) = choose|i: int, j: int|
                0 <= i < defs.drop_last().len() && defs.drop_last()[i].is_unique && 0 <= j
                    < defs.drop_last()[i].cols@.len() && defs.drop_last()[i].cols@[j]@ == n;
            assert(defs[i] == defs.drop_last()[i]);
            assert(idx_unique_mem(defs, n));
        }
        if defs.last().is_unique && has_name(defs.last().cols@, n) {
            let j = choose|j: int| 0 <= j < defs.last().cols@.len() && defs.last().cols@[j]@ == n;
            assert(defs[defs.len() - 1].is_unique && defs[defs.len() - 1].cols@[j]@ == n);
            assert(idx_unique_mem(defs, n));
        }
        if idx_unique_mem(defs, n) {
            let (i, j) = choose|i: int, j: int|
                0 <= i < defs.len() && defs[i].is_unique && 0 <= j < defs[i].cols@.len()
                    && defs[i].cols@[j]@ == n;
            if i < defs.len() - 1 {
                assert(defs.drop_last()[i] == defs[i]);
                assert(idx_unique_mem(defs.drop_last(), n));
            } else {
                assert(defs.last().is_unique && defs.last().cols@[j]@ == n);
            }
        }
    }
}

} // verus!

