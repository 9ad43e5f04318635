//! Entity assembly and the transpilation entry point: validates the
//! relation list, builds one entity module per table (fields, relation
//! enumeration and auxiliary link blocks) and one enumeration declaration
//! per input enumeration, and renders the result deterministically.

use vstd::prelude::*;
use vstd::string::StringExecFns;
use crate::emitter::Block;
use crate::emitter::Codegen;
use crate::emitter::Entry;
use crate::emitter::blanks;
use crate::emitter::block_text;
use crate::emitter::entries_text;
use crate::emitter::lemma_entries_text_push;
use crate::emitter::line_text;
use crate::fields::fields_text;
use crate::fields::build_model_block;
use crate::fields::join_names;
use crate::fields::join_texts;
use crate::fields::views_of;
use crate::names::pascal_of;
use crate::names::snake_of;
use crate::names::to_pascal;
use crate::names::to_snake;
use crate::refs::RefAction;
use crate::refs::RefBlock;
use crate::refs::RefSettings;
use crate::refs::Relation;
use crate::refs::RelationIndex;
use crate::refs::incoming_idx_of;
use crate::refs::is_incoming;
use crate::refs::is_outgoing;
use crate::refs::is_self_ref;
use crate::refs::outgoing_idx_of;
use crate::refs::ref_cols_ok;
use crate::refs::ref_kind_ok;
use crate::refs::ref_ok;
use crate::refs::self_idx_of;
use crate::schema::EnumBlock;
use crate::schema::MetaIndexer;
use crate::schema::SchemaBlock;
use crate::schema::TableBlock;
use crate::schema::Target;
use crate::schema::pk_cols_of;
use crate::schema::unique_cols_of;

verus! {

/// The spec-level image of a transpilation error.
pub enum ErrView {
    UnsupportedRelationKind { rel: Relation, table: Seq<char> },
    MissingCompositionColumn { table: Seq<char> },
}

/// A transpilation error: an unsupported relation kind, or a relation
/// endpoint that composes no column (an absent source endpoint counts as
/// such). Each carries the target table name of the offending relation.
#[derive(Debug, PartialEq, Eq, Clone)]
pub enum TranspileError {
    UnsupportedRelationKind { rel: Relation, table: String },
    MissingCompositionColumn { table: String },
}

impl View for TranspileError {
    type V = ErrView;

    open spec fn view(&self) -> ErrView {
        match self {
            TranspileError::UnsupportedRelationKind { rel, table } => {
                ErrView::UnsupportedRelationKind { rel: *rel, table: table@ }
            },
            TranspileError::MissingCompositionColumn { table } => {
                ErrView::MissingCompositionColumn { table: table@ }
            },
        }
    }
}

/// The first unsupported-kind error of the relation list, if any.
pub open spec fn first_kind_err(refs: Seq<RefBlock>) -> Option<ErrView>
    decreases refs.len(),
{
    if refs.len() == 0 {
        None
    } else if !ref_kind_ok(refs[0]) {
        Some(ErrView::UnsupportedRelationKind { rel: refs[0].rel, table: refs[0].rhs.table@ })
    } else {
        first_kind_err(refs.drop_first())
    }
}

/// The first missing-composition error of the relation list, if any.
pub open spec fn first_cols_err(refs: Seq<RefBlock>) -> Option<ErrView>
    decreases refs.len(),
{
    if refs.len() == 0 {
        None
    } else if !ref_cols_ok(refs[0]) {
        Some(ErrView::MissingCompositionColumn { table: refs[0].rhs.table@ })
    } else {
        first_cols_err(refs.drop_first())
    }
}

/// Validates every relation of the schema before any output is built:
/// relation kinds first, over the whole list, then endpoint compositions.
fn validate_refs(refs: &Vec<RefBlock>) -> (r: Result<(), TranspileError>)
    ensures
        r is Ok <==> (first_kind_err(refs@) is None && first_cols_err(refs@) is None),
        r is Ok ==> forall|i: int| 0 <= i < refs@.len() ==> ref_ok(#[trigger] refs@[i]),
        r is Err ==> match first_kind_err(refs@) {
            Some(e) => r->Err_0@ == e,
            None => first_cols_err(refs@) is Some && r->Err_0@ == first_cols_err(refs@)->0,
        },
{
    proof {
        assert(refs@.skip(0) =~= refs@);
    }
    let n = refs.len();
    let mut i: usize = 0;
    while i < n
        invariant
            n == refs@.len(),
            i <= n,
            forall|j: int| 0 <= j < i ==> ref_kind_ok(#[trigger] refs@[j]),
            first_kind_err(refs@) == first_kind_err(refs@.skip(i as int)),
        decreases n - i,
    {
        proof {
            assert(refs@.skip(i as int).drop_first() =~= refs@.skip(i + 1));
            assert(refs@.skip(i as int)[0] == refs@[i as int]);
        }
        let r = &refs[i];
        match r.rel {
            Relation::One2One => {},
            Relation::Many2One => {},
            _ => {
                return Err(
                    TranspileError::UnsupportedRelationKind {
                        rel: r.rel,
                        table: r.rhs.table.clone(),
                    },
                );
            },
        }
        i = i + 1;
    }
    proof {
        assert(refs@.skip(n as int) =~= Seq::<RefBlock>::empty());
    }
    let mut i: usize = 0;
    proof {
        assert(refs@.skip(0) =~= refs@);
    }
    while i < n
        invariant
            n == refs@.len(),
            i <= n,
            first_kind_err(refs@) is None,
            forall|j: int| 0 <= j < n ==> ref_kind_ok(#[trigger] refs@[j]),
            forall|j: int| 0 <= j < i ==> ref_cols_ok(#[trigger] refs@[j]),
            first_cols_err(refs@) == first_cols_err(refs@.skip(i as int)),
        decreases n - i,
    {
        proof {
            assert(refs@.skip(i as int).drop_first() =~= refs@.skip(i + 1));
            assert(refs@.skip(i as int)[0] == refs@[i as int]);
        }
        let r = &refs[i];
        let cols_ok = match &r.lhs {
            Some(lhs) => lhs.compositions.len() > 0 && r.rhs.compositions.len() > 0,
            None => false,
        };
        if !cols_ok {
            return Err(TranspileError::MissingCompositionColumn { table: r.rhs.table.clone() });
        }
        i = i + 1;
    }
    proof {
        assert(refs@.skip(n as int) =~= Seq::<RefBlock>::empty());
    }
    Ok(())
}

/// The attribute text of a referential action.
pub open spec fn action_text(a: RefAction) -> Seq<char> {
    match a {
        RefAction::Cascade => "Cascade"@,
        RefAction::Restrict => "Restrict"@,
        RefAction::SetNull => "SetNull"@,
        RefAction::SetDefault => "SetDefault"@,
        RefAction::NoAction => "NoAction"@,
    }
}

/// The referential-action attributes of a relation, in on-delete,
/// on-update order.
pub open spec fn action_attr_texts(s: Option<RefSettings>) -> Seq<Seq<char>> {
    match s {
        None => Seq::empty(),
        Some(st) => (match st.on_delete {
            Some(a) => seq!["on_delete = \""@ + action_text(a) + "\""@],
            None => Seq::empty(),
        }) + (match st.on_update {
            Some(a) => seq!["on_update = \""@ + action_text(a) + "\""@],
            None => Seq::empty(),
        }),
    }
}

/// The attribute list of a self relation.
pub open spec fn self_attr_texts(r: RefBlock) -> Seq<Seq<char>> {
    seq![
        "belongs_to = \"Entity\""@,
        "from = \"Column::"@ + pascal_of(r.lhs->0.compositions@[0]@) + "\""@,
        "to = \"Column::"@ + pascal_of(r.rhs.compositions@[0]@) + "\""@,
    ] + action_attr_texts(r.settings)
}

/// The attribute list of an outgoing relation.
pub open spec fn outgoing_attr_texts(r: RefBlock) -> Seq<Seq<char>> {
    seq![
        "belongs_to = \"super::"@ + snake_of(r.rhs.table@) + "::Entity\""@,
        "from = \"Column::"@ + pascal_of(r.lhs->0.compositions@[0]@) + "\""@,
        "to = \"super::"@ + snake_of(r.rhs.table@) + "::Column::"@ + pascal_of(
            r.rhs.compositions@[0]@,
        ) + "\""@,
    ] + action_attr_texts(r.settings)
}

/// The attribute line of an incoming relation: the reverse view of the
/// forward edge, a has-one for a one-to-one and a has-many for a
/// many-to-one.
pub open spec fn incoming_attr_text(r: RefBlock) -> Seq<char> {
    if r.rel is One2One {
        "#[sea_orm(has_one = \"super::"@ + snake_of(r.lhs->0.table@) + "::Entity\")]"@
    } else {
        "#[sea_orm(has_many = \"super::"@ + snake_of(r.lhs->0.table@) + "::Entity\")]"@
    }
}

/// The two relation-enumeration lines of a self relation.
pub open spec fn self_rel_lines(r: RefBlock) -> Seq<char> {
    line_text("#[sea_orm("@ + join_texts(self_attr_texts(r), ", "@) + ")]"@, 2) + line_text(
        "SelfReferencing,"@,
        2,
    )
}

/// The two relation-enumeration lines of an outgoing relation, whose
/// variant is named after the opposite table.
pub open spec fn outgoing_rel_lines(r: RefBlock) -> Seq<char> {
    line_text("#[sea_orm("@ + join_texts(outgoing_attr_texts(r), ", "@) + ")]"@, 2) + line_text(
        pascal_of(r.rhs.table@) + ","@,
        2,
    )
}

/// The two relation-enumeration lines of an incoming relation, whose
/// variant is named after the opposite table.
pub open spec fn incoming_rel_lines(r: RefBlock) -> Seq<char> {
    line_text(incoming_attr_text(r), 2) + line_text(pascal_of(r.lhs->0.table@) + ","@, 2)
}

/// A headed block's text: header and opening delimiter at depth `d`,
/// inner text, closing delimiter at depth `d`.
pub open spec fn headed_text(h: Seq<char>, d: nat, inner: Seq<char>) -> Seq<char> {
    line_text(h + seq![' ', '{'], d) + inner + line_text(seq!['}'], d)
}

/// The auxiliary blocks of a self relation: a marker entity standing for
/// the link to self, and its link implementation.
pub open spec fn self_aux_text() -> Seq<char> {
    headed_text("pub struct SelfReferencingLink"@, 1, Seq::empty()) + headed_text(
        "impl Linked for SelfReferencingLink"@,
        1,
        line_text("type FromEntity = Entity;"@, 2) + line_text("type ToEntity = Entity;"@, 2)
            + blanks(1) + headed_text(
            "fn link(&self) -> Vec<RelationDef>"@,
            2,
            line_text("vec![Relation::SelfReferencing.def()]"@, 3),
        ),
    )
}

/// The auxiliary relation-traversal block towards the opposite entity.
pub open spec fn related_aux_text(other_snake: Seq<char>, other_pascal: Seq<char>) -> Seq<char> {
    headed_text(
        "impl Related<super::"@ + other_snake + "::Entity> for Entity"@,
        1,
        headed_text("fn to() -> RelationDef"@, 2, line_text("Relation::"@ + other_pascal + ".def()"@, 3)),
    )
}

/// The relation-enumeration lines of the self relations named by `idxs`.
pub open spec fn selfs_lines_text(refs: Seq<RefBlock>, idxs: Seq<usize>) -> Seq<char>
    decreases idxs.len(),
{
    if idxs.len() == 0 {
        Seq::empty()
    } else {
        selfs_lines_text(refs, idxs.drop_last()) + self_rel_lines(refs[idxs.last() as int])
    }
}

/// The relation-enumeration lines of the outgoing relations named by
/// `idxs`.
pub open spec fn outgoing_lines_text(refs: Seq<RefBlock>, idxs: Seq<usize>) -> Seq<char>
    decreases idxs.len(),
{
    if idxs.len() == 0 {
        Seq::empty()
    } else {
        outgoing_lines_text(refs, idxs.drop_last()) + outgoing_rel_lines(refs[idxs.last() as int])
    }
}

/// The relation-enumeration lines of the incoming relations named by
/// `idxs`.
pub open spec fn incoming_lines_text(refs: Seq<RefBlock>, idxs: Seq<usize>) -> Seq<char>
    decreases idxs.len(),
{
    if idxs.len() == 0 {
        Seq::empty()
    } else {
        incoming_lines_text(refs, idxs.drop_last()) + incoming_rel_lines(refs[idxs.last() as int])
    }
}

/// The auxiliary blocks of the self relations named by `idxs`.
pub open spec fn selfs_aux_text(idxs: Seq<usize>) -> Seq<char>
    decreases idxs.len(),
{
    if idxs.len() == 0 {
        Seq::empty()
    } else {
        selfs_aux_text(idxs.drop_last()) + self_aux_text()
    }
}

/// The auxiliary blocks of the outgoing relations named by `idxs`.
pub open spec fn outgoing_aux_text(refs: Seq<RefBlock>, idxs: Seq<usize>) -> Seq<char>
    decreases idxs.len(),
{
    if idxs.len() == 0 {
        Seq::empty()
    } else {
        outgoing_aux_text(refs, idxs.drop_last()) + related_aux_text(
            snake_of(refs[idxs.last() as int].rhs.table@),
            pascal_of(refs[idxs.last() as int].rhs.table@),
        )
    }
}

/// The auxiliary blocks of the incoming relations named by `idxs`.
pub open spec fn incoming_aux_text(refs: Seq<RefBlock>, idxs: Seq<usize>) -> Seq<char>
    decreases idxs.len(),
{
    if idxs.len() == 0 {
        Seq::empty()
    } else {
        incoming_aux_text(refs, idxs.drop_last()) + related_aux_text(
            snake_of(refs[idxs.last() as int].lhs->0.table@),
            pascal_of(refs[idxs.last() as int].lhs->0.table@),
        )
    }
}

/// The lines of a table's relation enumeration: self relations first,
/// then outgoing, then incoming, each preserving input order.
pub open spec fn rel_lines_text(refs: Seq<RefBlock>, t: Seq<char>) -> Seq<char> {
    selfs_lines_text(refs, self_idx_of(refs, t)) + outgoing_lines_text(
        refs,
        outgoing_idx_of(refs, t),
    ) + incoming_lines_text(refs, incoming_idx_of(refs, t))
}

/// The auxiliary link blocks of a table, in the same fixed order as its
/// relation enumeration.
pub open spec fn aux_text(refs: Seq<RefBlock>, t: Seq<char>) -> Seq<char> {
    selfs_aux_text(self_idx_of(refs, t)) + outgoing_aux_text(refs, outgoing_idx_of(refs, t))
        + incoming_aux_text(refs, incoming_idx_of(refs, t))
}

/// Elements of the self partition are in bounds and are self edges.
proof fn lemma_self_idx_props(refs: Seq<RefBlock>, t: Seq<char>)
    requires
        refs.len() <= usize::MAX,
    ensures
        forall|j: int|
            0 <= j < self_idx_of(refs, t).len() ==> (#[trigger] self_idx_of(refs, t)[j] < refs.len()
                && is_self_ref(refs[self_idx_of(refs, t)[j] as int], t)),
    decreases refs.len(),
{
    if refs.len() > 0 {
        lemma_self_idx_props(refs.drop_last(), t);
        assert forall|j: int| 0 <= j < self_idx_of(refs, t).len() implies (#[trigger] self_idx_of(
            refs,
            t,
        )[j] < refs.len() && is_self_ref(refs[self_idx_of(refs, t)[j] as int], t)) by {
            if j < self_idx_of(refs.drop_last(), t).len() {
                assert(self_idx_of(refs, t)[j] == self_idx_of(refs.drop_last(), t)[j]);
                assert(refs.drop_last()[self_idx_of(refs.drop_last(), t)[j] as int] == refs[
                    self_idx_of(refs.drop_last(), t)[j] as int]);
            }
        }
    }
}

/// Elements of the outgoing partition are in bounds and are outgoing
/// edges.
proof fn lemma_outgoing_idx_props(refs: Seq<RefBlock>, t: Seq<char>)
    requires
        refs.len() <= usize::MAX,
    ensures
        forall|j: int|
            0 <= j < outgoing_idx_of(refs, t).len() ==> (#[trigger] outgoing_idx_of(refs, t)[j]
                < refs.len() && is_outgoing(refs[outgoing_idx_of(refs, t)[j] as int], t)),
    decreases refs.len(),
{
    if refs.len() > 0 {
        lemma_outgoing_idx_props(refs.drop_last(), t);
        assert forall|j: int| 0 <= j < outgoing_idx_of(refs, t).len() implies (
        #[trigger] outgoing_idx_of(refs, t)[j] < refs.len() && is_outgoing(
            refs[outgoing_idx_of(refs, t)[j] as int],
            t,
        )) by {
            if j < outgoing_idx_of(refs.drop_last(), t).len() {
                assert(outgoing_idx_of(refs, t)[j] == outgoing_idx_of(refs.drop_last(), t)[j]);
                assert(refs.drop_last()[outgoing_idx_of(refs.drop_last(), t)[j] as int] == refs[
                    outgoing_idx_of(refs.drop_last(), t)[j] as int]);
            }
        }
    }
}

/// Elements of the incoming partition are in bounds and are incoming
/// edges.
proof fn lemma_incoming_idx_props(refs: Seq<RefBlock>, t: Seq<char>)
    requires
        refs.len() <= usize::MAX,
    ensures
        forall|j: int|
            0 <= j < incoming_idx_of(refs, t).len() ==> (#[trigger] incoming_idx_of(refs, t)[j]
                < refs.len() && is_incoming(refs[incoming_idx_of(refs, t)[j] as int], t)),
    decreases refs.len(),
{
    if refs.len() > 0 {
        lemma_incoming_idx_props(refs.drop_last(), t);
        assert forall|j: int| 0 <= j < incoming_idx_of(refs, t).len() implies (
        #[trigger] incoming_idx_of(refs, t)[j] < refs.len() && is_incoming(
            refs[incoming_idx_of(refs, t)[j] as int],
            t,
        )) by {
            if j < incoming_idx_of(refs.drop_last(), t).len() {
                assert(incoming_idx_of(refs, t)[j] == incoming_idx_of(refs.drop_last(), t)[j]);
                assert(refs.drop_last()[incoming_idx_of(refs.drop_last(), t)[j] as int] == refs[
                    incoming_idx_of(refs.drop_last(), t)[j] as int]);
            }
        }
    }
}

/// The attribute text of a referential action.
fn action_str(a: &RefAction) -> (r: &'static str)
    ensures
        r@ == action_text(*a),
{
    match a {
        RefAction::Cascade => "Cascade",
        RefAction::Restrict => "Restrict",
        RefAction::SetNull => "SetNull",
        RefAction::SetDefault => "SetDefault",
        RefAction::NoAction => "NoAction",
    }
}

/// Appends the referential-action attributes of a relation.
fn push_action_attrs(v: &mut Vec<String>, settings: &Option<RefSettings>)
    ensures
        final(v)@.len() >= old(v)@.len(),
        views_of(final(v)@) == views_of(old(v)@) + action_attr_texts(*settings),
{
    let ghost g0 = views_of(v@);
    match settings {
        None => {},
        Some(st) => {
            match &st.on_delete {
                Some(a) => {
                    let mut s = String::from_str("on_delete = \"");
                    s.append(action_str(a));
                    s.append("\"");
                    proof {
                        reveal_strlit("\"");
                        assert(s@ =~= "on_delete = \""@ + action_text(*a) + "\""@);
                    }
                    v.push(s);
                },
                None => {},
            }
            match &st.on_update {
                Some(a) => {
                    let mut s = String::from_str("on_update = \"");
                    s.append(action_str(a));
                    s.append("\"");
                    proof {
                        reveal_strlit("\"");
                        assert(s@ =~= "on_update = \""@ + action_text(*a) + "\""@);
                    }
                    v.push(s);
                },
                None => {},
            }
        },
    }
    proof {
        assert(views_of(v@) =~= g0 + action_attr_texts(*settings));
    }
}

/// Appends the two relation lines of one self relation.
fn push_self_rel(rb: Block, r: &RefBlock) -> (out: Block)
    requires
        ref_cols_ok(*r),
    ensures
        out.depth == rb.depth,
        out.header == rb.header,
        entries_text(out.entries@, 2) == entries_text(rb.entries@, 2) + self_rel_lines(*r),
{
    let lhs = r.lhs.as_ref().unwrap();
    let from_pascal = to_pascal(lhs.compositions[0].as_str());
    let to_pascal_name = to_pascal(r.rhs.compositions[0].as_str());
    let mut attrs: Vec<String> = Vec::new();
    attrs.push(String::from_str("belongs_to = \"Entity\""));
    let mut from_attr = String::from_str("from = \"Column::");
    from_attr.append(from_pascal.as_str());
    from_attr.append("\"");
    attrs.push(from_attr);
    let mut to_attr = String::from_str("to = \"Column::");
    to_attr.append(to_pascal_name.as_str());
    to_attr.append("\"");
    attrs.push(to_attr);
    proof {
        reveal_strlit("\"");
        assert(views_of(attrs@) =~= seq![
            "belongs_to = \"Entity\""@,
            "from = \"Column::"@ + pascal_of(r.lhs->0.compositions@[0]@) + "\""@,
            "to = \"Column::"@ + pascal_of(r.rhs.compositions@[0]@) + "\""@,
        ]);
    }
    push_action_attrs(&mut attrs, &r.settings);
    proof {
        assert(views_of(attrs@) =~= self_attr_texts(*r));
    }
    let mut attr_line = String::from_str("#[sea_orm(");
    let joined = join_names(&attrs, ", ");
    attr_line.append(joined.as_str());
    attr_line.append(")]");
    let variant = String::from_str("SelfReferencing,");
    let out = rb.line(attr_line).line(variant);
    proof {
        lemma_entries_text_push(rb.entries@, Entry::Line(attr_line), 2);
        lemma_entries_text_push(rb.entries@.push(Entry::Line(attr_line)), Entry::Line(variant), 2);
        assert(attr_line@ =~= "#[sea_orm("@ + join_texts(self_attr_texts(*r), ", "@) + ")]"@);
        assert(entries_text(out.entries@, 2) =~= entries_text(rb.entries@, 2) + self_rel_lines(
            *r,
        ));
    }
    out
}

/// Appends the two relation lines of one outgoing relation.
fn push_outgoing_rel(rb: Block, r: &RefBlock) -> (out: Block)
    requires
        ref_cols_ok(*r),
    ensures
        out.depth == rb.depth,
        out.header == rb.header,
        entries_text(out.entries@, 2) == entries_text(rb.entries@, 2) + outgoing_rel_lines(*r),
{
    let lhs = r.lhs.as_ref().unwrap();
    let from_pascal = to_pascal(lhs.compositions[0].as_str());
    let to_pascal_name = to_pascal(r.rhs.compositions[0].as_str());
    let other_snake = to_snake(r.rhs.table.as_str());
    let other_pascal = to_pascal(r.rhs.table.as_str());
    let mut attrs: Vec<String> = Vec::new();
    let mut bt = String::from_str("belongs_to = \"super::");
    bt.append(other_snake.as_str());
    bt.append("::Entity\"");
    attrs.push(bt);
    let mut from_attr = String::from_str("from = \"Column::");
    from_attr.append(from_pascal.as_str());
    from_attr.append("\"");
    attrs.push(from_attr);
    let mut to_attr = String::from_str("to = \"super::");
    to_attr.append(other_snake.as_str());
    to_attr.append("::Column::");
    to_attr.append(to_pascal_name.as_str());
    to_attr.append("\"");
    attrs.push(to_attr);
    proof {
        reveal_strlit("\"");
        assert(views_of(attrs@) =~= seq![
            "belongs_to = \"super::"@ + snake_of(r.rhs.table@) + "::Entity\""@,
            "from = \"Column::"@ + pascal_of(r.lhs->0.compositions@[0]@) + "\""@,
            "to = \"super::"@ + snake_of(r.rhs.table@) + "::Column::"@ + pascal_of(
                r.rhs.compositions@[0]@,
            ) + "\""@,
        ]);
    }
    push_action_attrs(&mut attrs, &r.settings);
    proof {
        assert(views_of(attrs@) =~= outgoing_attr_texts(*r));
    }
    let mut attr_line = String::from_str("#[sea_orm(");
    let joined = join_names(&attrs, ", ");
    attr_line.append(joined.as_str());
    attr_line.append(")]");
    let mut variant = String::new();
    variant.append(other_pascal.as_str());
    variant.append(",");
    let out = rb.line(attr_line).line(variant);
    proof {
        lemma_entries_text_push(rb.entries@, Entry::Line(attr_line), 2);
        lemma_entries_text_push(rb.entries@.push(Entry::Line(attr_line)), Entry::Line(variant), 2);
        assert(attr_line@ =~= "#[sea_orm("@ + join_texts(outgoing_attr_texts(*r), ", "@) + ")]"@);
        assert(variant@ =~= pascal_of(r.rhs.table@) + ","@);
        assert(entries_text(out.entries@, 2) =~= entries_text(rb.entries@, 2)
            + outgoing_rel_lines(*r));
    }
    out
}

/// Appends the two relation lines of one incoming relation.
fn push_incoming_rel(rb: Block, r: &RefBlock) -> (out: Block)
    requires
        ref_cols_ok(*r),
        ref_kind_ok(*r),
    ensures
        out.depth == rb.depth,
        out.header == rb.header,
        entries_text(out.entries@, 2) == entries_text(rb.entries@, 2) + incoming_rel_lines(*r),
{
    let lhs = r.lhs.as_ref().unwrap();
    let other_snake = to_snake(lhs.table.as_str());
    let other_pascal = to_pascal(lhs.table.as_str());
    let mut attr_line = match r.rel {
        Relation::One2One => String::from_str("#[sea_orm(has_one = \"super::"),
        _ => String::from_str("#[sea_orm(has_many = \"super::"),
    };
    attr_line.append(other_snake.as_str());
    attr_line.append("::Entity\")]");
    let mut variant = String::new();
    variant.append(other_pascal.as_str());
    variant.append(",");
    let out = rb.line(attr_line).line(variant);
    proof {
        lemma_entries_text_push(rb.entries@, Entry::Line(attr_line), 2);
        lemma_entries_text_push(rb.entries@.push(Entry::Line(attr_line)), Entry::Line(variant), 2);
        assert(attr_line@ =~= incoming_attr_text(*r));
        assert(variant@ =~= pascal_of(r.lhs->0.table@) + ","@);
        assert(entries_text(out.entries@, 2) =~= entries_text(rb.entries@, 2)
            + incoming_rel_lines(*r));
    }
    out
}

/// Appends the two auxiliary blocks of a self relation: the marker link
/// entity and its link implementation.
fn push_self_aux(aux: Block) -> (out: Block)
    ensures
        out.depth == aux.depth,
        out.header == aux.header,
        entries_text(out.entries@, 1) == entries_text(aux.entries@, 1) + self_aux_text(),
{
    let link_struct = Block::new(1, Some("pub struct SelfReferencingLink"));
    let vec_line = String::from_str("vec![Relation::SelfReferencing.def()]");
    let from_line = String::from_str("type FromEntity = Entity;");
    let to_line = String::from_str("type ToEntity = Entity;");
    let fn_block = Block::new(2, Some("fn link(&self) -> Vec<RelationDef>")).line(vec_line);
    let ghost fn_block_g = fn_block;
    let impl_block = Block::new(1, Some("impl Linked for SelfReferencingLink")).line(from_line)
        .line(to_line).line_skip(1).block(fn_block);
    let ghost link_struct_g = link_struct;
    let ghost impl_block_g = impl_block;
    let out = aux.block(link_struct).block(impl_block);
    proof {
        lemma_entries_text_push(Seq::<Entry>::empty(), Entry::Line(vec_line), 3);
        assert(block_text(fn_block_g) =~= headed_text(
            "fn link(&self) -> Vec<RelationDef>"@,
            2,
            line_text("vec![Relation::SelfReferencing.def()]"@, 3),
        ));
        assert(block_text(link_struct_g) =~= headed_text(
            "pub struct SelfReferencingLink"@,
            1,
            Seq::empty(),
        ));
        let e1 = Seq::<Entry>::empty().push(Entry::Line(from_line));
        let e2 = e1.push(Entry::Line(to_line));
        let e3 = e2.push(Entry::Skip(1));
        let e4 = e3.push(Entry::Sub(fn_block_g));
        assert(impl_block_g.entries@ == e4);
        lemma_entries_text_push(Seq::<Entry>::empty(), Entry::Line(from_line), 2);
        lemma_entries_text_push(e1, Entry::Line(to_line), 2);
        lemma_entries_text_push(e2, Entry::Skip(1), 2);
        lemma_entries_text_push(e3, Entry::Sub(fn_block_g), 2);
        assert(entries_text(e4, 2) =~= line_text("type FromEntity = Entity;"@, 2) + line_text(
            "type ToEntity = Entity;"@,
            2,
        ) + blanks(1) + block_text(fn_block_g));
        assert(block_text(impl_block_g) =~= headed_text(
            "impl Linked for SelfReferencingLink"@,
            1,
            line_text("type FromEntity = Entity;"@, 2) + line_text("type ToEntity = Entity;"@, 2)
                + blanks(1) + headed_text(
                "fn link(&self) -> Vec<RelationDef>"@,
                2,
                line_text("vec![Relation::SelfReferencing.def()]"@, 3),
            ),
        ));
        lemma_entries_text_push(aux.entries@, Entry::Sub(link_struct_g), 1);
        lemma_entries_text_push(aux.entries@.push(Entry::Sub(link_struct_g)), Entry::Sub(
            impl_block_g,
        ), 1);
        assert(entries_text(out.entries@, 1) =~= entries_text(aux.entries@, 1) + self_aux_text());
    }
    out
}

/// Appends the auxiliary relation-traversal block towards the named
/// opposite table.
fn push_related_aux(aux: Block, other: &String) -> (out: Block)
    ensures
        out.depth == aux.depth,
        out.header == aux.header,
        entries_text(out.entries@, 1) == entries_text(aux.entries@, 1) + related_aux_text(
            snake_of(other@),
            pascal_of(other@),
        ),
{
    let other_snake = to_snake(other.as_str());
    let other_pascal = to_pascal(other.as_str());
    let mut header = String::from_str("impl Related<super::");
    header.append(other_snake.as_str());
    header.append("::Entity> for Entity");
    let mut def_line = String::from_str("Relation::");
    def_line.append(other_pascal.as_str());
    def_line.append(".def()");
    let fn_block = Block::new(2, Some("fn to() -> RelationDef")).line(def_line);
    let ghost fn_block_g = fn_block;
    let impl_block = Block::new(1, Some(header.as_str())).block(fn_block);
    let ghost impl_block_g = impl_block;
    let out = aux.block(impl_block);
    proof {
        lemma_entries_text_push(Seq::<Entry>::empty(), Entry::Line(def_line), 3);
        assert(block_text(fn_block_g) =~= headed_text(
            "fn to() -> RelationDef"@,
            2,
            line_text("Relation::"@ + pascal_of(other@) + ".def()"@, 3),
        ));
        lemma_entries_text_push(Seq::<Entry>::empty(), Entry::Sub(fn_block_g), 2);
        assert(header@ =~= "impl Related<super::"@ + snake_of(other@) + "::Entity> for Entity"@);
        assert(block_text(impl_block_g) =~= related_aux_text(snake_of(other@), pascal_of(other@)));
        lemma_entries_text_push(aux.entries@, Entry::Sub(impl_block_g), 1);
        assert(entries_text(out.entries@, 1) =~= entries_text(aux.entries@, 1) + related_aux_text(
            snake_of(other@),
            pascal_of(other@),
        ));
    }
    out
}

/// Builds a table's relation enumeration block and the headerless
/// container of its auxiliary link blocks: self relations first, then
/// outgoing, then incoming.
fn build_relations(refs: &Vec<RefBlock>, tname: &String) -> (pair: (Block, Block))
    requires
        forall|i: int| 0 <= i < refs@.len() ==> ref_ok(#[trigger] refs@[i]),
    ensures
        pair.0.depth == 1,
        pair.0.header is Some,
        pair.0.header->0@ == "pub enum Relation"@,
        entries_text(pair.0.entries@, 2) == rel_lines_text(refs@, tname@),
        pair.1.depth == 1,
        pair.1.header is None,
        block_text(pair.1) == aux_text(refs@, tname@),
{
    let nrefs = refs.len();
    let ridx = RelationIndex::build(refs, tname);
    proof {
        assert(refs@.len() == nrefs as nat);
        lemma_self_idx_props(refs@, tname@);
        lemma_outgoing_idx_props(refs@, tname@);
        lemma_incoming_idx_props(refs@, tname@);
    }
    let mut rel = Block::new(1, Some("pub enum Relation"));
    let mut aux = Block::new(1, None);
    let n1 = ridx.selfs.len();
    let mut j: usize = 0;
    while j < n1
        invariant
            n1 == ridx.selfs@.len(),
            j <= n1,
            ridx.wf(refs@, tname@),
            forall|i: int| 0 <= i < refs@.len() ==> ref_ok(#[trigger] refs@[i]),
            forall|k: int|
                0 <= k < ridx.selfs@.len() ==> (#[trigger] ridx.selfs@[k] < refs@.len()
                    && is_self_ref(refs@[ridx.selfs@[k] as int], tname@)),
            rel.depth == 1,
            rel.header is Some,
            rel.header->0@ == "pub enum Relation"@,
            entries_text(rel.entries@, 2) == selfs_lines_text(refs@, ridx.selfs@.take(j as int)),
            aux.depth == 1,
            aux.header is None,
            entries_text(aux.entries@, 1) == selfs_aux_text(ridx.selfs@.take(j as int)),
        decreases n1 - j,
    {
        proof {
            assert(ridx.selfs@.take(j + 1).drop_last() =~= ridx.selfs@.take(j as int));
            assert(ridx.selfs@.take(j + 1).last() == ridx.selfs@[j as int]);
        }
        let k = ridx.selfs[j];
        rel = push_self_rel(rel, &refs[k]);
        aux = push_self_aux(aux);
        j = j + 1;
    }
    proof {
        assert(ridx.selfs@.take(n1 as int) =~= ridx.selfs@);
    }
    let n2 = ridx.outgoing.len();
    let mut j: usize = 0;
    while j < n2
        invariant
            n2 == ridx.outgoing@.len(),
            j <= n2,
            ridx.wf(refs@, tname@),
            forall|i: int| 0 <= i < refs@.len() ==> ref_ok(#[trigger] refs@[i]),
            forall|k: int|
                0 <= k < ridx.outgoing@.len() ==> (#[trigger] ridx.outgoing@[k] < refs@.len()
                    && is_outgoing(refs@[ridx.outgoing@[k] as int], tname@)),
            rel.depth == 1,
            rel.header is Some,
            rel.header->0@ == "pub enum Relation"@,
            entries_text(rel.entries@, 2) == selfs_lines_text(refs@, self_idx_of(refs@, tname@))
                + outgoing_lines_text(refs@, ridx.outgoing@.take(j as int)),
            aux.depth == 1,
            aux.header is None,
            entries_text(aux.entries@, 1) == selfs_aux_text(self_idx_of(refs@, tname@))
                + outgoing_aux_text(refs@, ridx.outgoing@.take(j as int)),
        decreases n2 - j,
    {
        proof {
            assert(ridx.outgoing@.take(j + 1).drop_last() =~= ridx.outgoing@.take(j as int));
            assert(ridx.outgoing@.take(j + 1).last() == ridx.outgoing@[j as int]);
        }
        let k = ridx.outgoing[j];
        rel = push_outgoing_rel(rel, &refs[k]);
        aux = push_related_aux(aux, &refs[k].rhs.table);
        proof {
            assert(entries_text(rel.entries@, 2) =~= selfs_lines_text(
                refs@,
                self_idx_of(refs@, tname@),
            ) + outgoing_lines_text(refs@, ridx.outgoing@.take(j + 1)));
            assert(entries_text(aux.entries@, 1) =~= selfs_aux_text(self_idx_of(refs@, tname@))
                + outgoing_aux_text(refs@, ridx.outgoing@.take(j + 1)));
        }
        j = j + 1;
    }
    proof {
        assert(ridx.outgoing@.take(n2 as int) =~= ridx.outgoing@);
    }
    let n3 = ridx.incoming.len();
    let mut j: usize = 0;
    while j < n3
        invariant
            n3 == ridx.incoming@.len(),
            j <= n3,
            ridx.wf(refs@, tname@),
            forall|i: int| 0 <= i < refs@.len() ==> ref_ok(#[trigger] refs@[i]),
            forall|k: int|
                0 <= k < ridx.incoming@.len() ==> (#[trigger] ridx.incoming@[k] < refs@.len()
                    && is_incoming(refs@[ridx.incoming@[k] as int], tname@)),
            rel.depth == 1,
            rel.header is Some,
            rel.header->0@ == "pub enum Relation"@,
            entries_text(rel.entries@, 2) == selfs_lines_text(refs@, self_idx_of(refs@, tname@))
                + outgoing_lines_text(refs@, outgoing_idx_of(refs@, tname@))
                + incoming_lines_text(refs@, ridx.incoming@.take(j as int)),
            aux.depth == 1,
            aux.header is None,
            entries_text(aux.entries@, 1) == selfs_aux_text(self_idx_of(refs@, tname@))
                + outgoing_aux_text(refs@, outgoing_idx_of(refs@, tname@)) + incoming_aux_text(
                refs@,
                ridx.incoming@.take(j as int),
            ),
        decreases n3 - j,
    {
        proof {
            assert(ridx.incoming@.take(j + 1).drop_last() =~= ridx.incoming@.take(j as int));
            assert(ridx.incoming@.take(j + 1).last() == ridx.incoming@[j as int]);
        }
        let k = ridx.incoming[j];
        rel = push_incoming_rel(rel, &refs[k]);
        aux = push_related_aux(aux, &refs[k].lhs.as_ref().unwrap().table);
        proof {
            assert(entries_text(rel.entries@, 2) =~= selfs_lines_text(
                refs@,
                self_idx_of(refs@, tname@),
            ) + outgoing_lines_text(refs@, outgoing_idx_of(refs@, tname@)) + incoming_lines_text(
                refs@,
                ridx.incoming@.take(j + 1),
            ));
            assert(entries_text(aux.entries@, 1) =~= selfs_aux_text(self_idx_of(refs@, tname@))
                + outgoing_aux_text(refs@, outgoing_idx_of(refs@, tname@)) + incoming_aux_text(
                refs@,
                ridx.incoming@.take(j + 1),
            ));
        }
        j = j + 1;
    }
    proof {
        assert(ridx.incoming@.take(n3 as int) =~= ridx.incoming@);
    }
    (rel, aux)
}


/// The schema qualifier of an identifier: its schema name, or `public`
/// when none is given.
pub open spec fn schema_name_text(s: Option<String>) -> Seq<char> {
    match s {
        Some(x) => x@,
        None => "public"@,
    }
}

/// The schema qualifier of an identifier.
fn schema_name_str(s: &Option<String>) -> (r: String)
    ensures
        r@ == schema_name_text(*s),
{
    match s {
        Some(x) => x.clone(),
        None => String::from_str("public"),
    }
}

/// The text of one table's entity module: the module header, the model
/// struct with every field, the relation enumeration, the auxiliary link
/// blocks, and the behavior implementation.
pub open spec fn table_mod_text(t: TableBlock, refs: Seq<RefBlock>, target: Target) -> Seq<char> {
    headed_text(
        "pub mod "@ + snake_of(t.ident.name@),
        0,
        line_text("use sea_orm::entity::prelude::*;"@, 1) + blanks(1) + line_text(
            "#[derive(Clone, Debug, PartialEq, DeriveEntityModel)]"@,
            1,
        ) + line_text(
            "#[sea_orm(table_name = \""@ + t.ident.name@ + "\", schema_name = \""@
                + schema_name_text(t.ident.schema) + "\")]"@,
            1,
        ) + headed_text(
            "pub struct Model"@,
            1,
            fields_text(t.cols@, pk_cols_of(t.indexes@), unique_cols_of(t.indexes@), target, 2),
        ) + blanks(1) + line_text("#[derive(Copy, Clone, Debug, EnumIter, DeriveRelation)]"@, 1)
            + headed_text("pub enum Relation"@, 1, rel_lines_text(refs, t.ident.name@)) + aux_text(
            refs,
            t.ident.name@,
        ) + blanks(1) + line_text("impl ActiveModelBehavior for ActiveModel {}"@, 1),
    )
}

/// Builds one table's entity module block.
fn build_table_mod(t: &TableBlock, refs: &Vec<RefBlock>, target: &Target) -> (b: Block)
    requires
        forall|i: int| 0 <= i < refs@.len() ==> ref_ok(#[trigger] refs@[i]),
    ensures
        block_text(b) == table_mod_text(*t, refs@, *target),
{
    let meta = MetaIndexer::build(&t.indexes);
    let model = build_model_block(&t.cols, &meta, target);
    let pair = build_relations(refs, &t.ident.name);
    let rel = pair.0;
    let aux = pair.1;
    let snake = to_snake(t.ident.name.as_str());
    let mut mod_header = String::from_str("pub mod ");
    mod_header.append(snake.as_str());
    let sn = schema_name_str(&t.ident.schema);
    let mut table_attr = String::from_str("#[sea_orm(table_name = \"");
    table_attr.append(t.ident.name.as_str());
    table_attr.append("\", schema_name = \"");
    table_attr.append(sn.as_str());
    table_attr.append("\")]");
    let use_line = String::from_str("use sea_orm::entity::prelude::*;");
    let derive1 = String::from_str("#[derive(Clone, Debug, PartialEq, DeriveEntityModel)]");
    let derive2 = String::from_str("#[derive(Copy, Clone, Debug, EnumIter, DeriveRelation)]");
    let behavior = String::from_str("impl ActiveModelBehavior for ActiveModel {}");
    let ghost model_g = model;
    let ghost rel_g = rel;
    let ghost aux_g = aux;
    let b = Block::new(0, Some(mod_header.as_str())).line(use_line).line_skip(1).line(
        derive1,
    ).line(table_attr).block(model).line_skip(1).line(derive2).block(rel).block(aux).line_skip(
        1,
    ).line(behavior);
    proof {
        let e1 = Seq::<Entry>::empty().push(Entry::Line(use_line));
        let e2 = e1.push(Entry::Skip(1));
        let e3 = e2.push(Entry::Line(derive1));
        let e4 = e3.push(Entry::Line(table_attr));
        let e5 = e4.push(Entry::Sub(model_g));
        let e6 = e5.push(Entry::Skip(1));
        let e7 = e6.push(Entry::Line(derive2));
        let e8 = e7.push(Entry::Sub(rel_g));
        let e9 = e8.push(Entry::Sub(aux_g));
        let e10 = e9.push(Entry::Skip(1));
        let e11 = e10.push(Entry::Line(behavior));
        assert(b.entries@ == e11);
        lemma_entries_text_push(Seq::<Entry>::empty(), Entry::Line(use_line), 1);
        lemma_entries_text_push(e1, Entry::Skip(1), 1);
        lemma_entries_text_push(e2, Entry::Line(derive1), 1);
        lemma_entries_text_push(e3, Entry::Line(table_attr), 1);
        lemma_entries_text_push(e4, Entry::Sub(model_g), 1);
        lemma_entries_text_push(e5, Entry::Skip(1), 1);
        lemma_entries_text_push(e6, Entry::Line(derive2), 1);
        lemma_entries_text_push(e7, Entry::Sub(rel_g), 1);
        lemma_entries_text_push(e8, Entry::Sub(aux_g), 1);
        lemma_entries_text_push(e9, Entry::Skip(1), 1);
        lemma_entries_text_push(e10, Entry::Line(behavior), 1);
        assert(mod_header@ =~= "pub mod "@ + snake_of(t.ident.name@));
        assert(table_attr@ =~= "#[sea_orm(table_name = \""@ + t.ident.name@
            + "\", schema_name = \""@ + schema_name_text(t.ident.schema) + "\")]"@);
        assert(block_text(model_g) =~= headed_text(
            "pub struct Model"@,
            1,
            fields_text(t.cols@, pk_cols_of(t.indexes@), unique_cols_of(t.indexes@), *target, 2),
        ));
        assert(block_text(rel_g) =~= headed_text(
            "pub enum Relation"@,
            1,
            rel_lines_text(refs@, t.ident.name@),
        ));
        assert(block_text(b) =~= table_mod_text(*t, refs@, *target));
    }
    b
}

/// The variant lines of an enumeration's values, each annotated with its
/// original raw string.
pub open spec fn enum_values_text(vals: Seq<String>) -> Seq<char>
    decreases vals.len(),
{
    if vals.len() == 0 {
        Seq::empty()
    } else {
        enum_values_text(vals.drop_last()) + line_text(
            "#[sea_orm(string_value = \""@ + vals.last()@ + "\")]"@,
            1,
        ) + line_text(pascal_of(vals.last()@) + ","@, 1)
    }
}

/// The text of one enumeration declaration.
pub open spec fn enum_decl_text(e: EnumBlock) -> Seq<char> {
    blanks(1) + line_text("#[derive(Clone, Debug, PartialEq, EnumIter, DeriveActiveEnum)]"@, 0)
        + line_text(
        "#[sea_orm(rs_type = \"String\", db_type = \"Enum\", enum_name = \""@ + e.name@
            + "\", schema_name = \""@ + schema_name_text(e.schema) + "\")]"@,
        0,
    ) + headed_text("pub enum "@ + pascal_of(e.name@), 0, enum_values_text(e.values@))
}

/// Builds the enumeration block of one enumeration.
fn build_enum_block(e: &EnumBlock) -> (b: Block)
    ensures
        block_text(b) == headed_text(
            "pub enum "@ + pascal_of(e.name@),
            0,
            enum_values_text(e.values@),
        ),
{
    let name_pascal = to_pascal(e.name.as_str());
    let mut header = String::from_str("pub enum ");
    header.append(name_pascal.as_str());
    let mut b = Block::new(0, Some(header.as_str()));
    proof {
        assert(header@ =~= "pub enum "@ + pascal_of(e.name@));
    }
    let n = e.values.len();
    let mut i: usize = 0;
    while i < n
        invariant
            n == e.values@.len(),
            i <= n,
            b.depth == 0,
            b.header is Some,
            b.header->0@ == "pub enum "@ + pascal_of(e.name@),
            entries_text(b.entries@, 1) == enum_values_text(e.values@.take(i as int)),
        decreases n - i,
    {
        proof {
            assert(e.values@.take(i + 1).drop_last() =~= e.values@.take(i as int));
            assert(e.values@.take(i + 1).last() == e.values@[i as int]);
        }
        let mut sv = String::from_str("#[sea_orm(string_value = \"");
        sv.append(e.values[i].as_str());
        sv.append("\")]");
        let vp = to_pascal(e.values[i].as_str());
        let mut var = String::new();
        var.append(vp.as_str());
        var.append(",");
        let ghost b0 = b;
        b = b.line(sv).line(var);
        proof {
            lemma_entries_text_push(b0.entries@, Entry::Line(sv), 1);
            lemma_entries_text_push(b0.entries@.push(Entry::Line(sv)), Entry::Line(var), 1);
            assert(sv@ =~= "#[sea_orm(string_value = \""@ + e.values@[i as int]@ + "\")]"@);
            assert(var@ =~= pascal_of(e.values@[i as int]@) + ","@);
            assert(entries_text(b.entries@, 1) =~= enum_values_text(e.values@.take(i + 1)));
        }
        i = i + 1;
    }
    proof {
        assert(e.values@.take(n as int) =~= e.values@);
    }
    b
}

/// The generated header line naming the generating tool and its version.
pub open spec fn banner_text(tool: Seq<char>, ver: Seq<char>) -> Seq<char> {
    "//! Generated by "@ + tool + seq![' '] + ver
}

/// The entity modules of every table, in input order.
pub open spec fn tables_text(ts: Seq<TableBlock>, refs: Seq<RefBlock>, target: Target) -> Seq<char>
    decreases ts.len(),
{
    if ts.len() == 0 {
        Seq::empty()
    } else {
        tables_text(ts.drop_last(), refs, target) + blanks(1) + table_mod_text(
            ts.last(),
            refs,
            target,
        )
    }
}

/// The enumeration declarations of every enumeration, in input order.
pub open spec fn enums_decls_text(es: Seq<EnumBlock>) -> Seq<char>
    decreases es.len(),
{
    if es.len() == 0 {
        Seq::empty()
    } else {
        enums_decls_text(es.drop_last()) + enum_decl_text(es.last())
    }
}

/// The whole rendered output of a valid schema.
pub open spec fn output_text(s: SchemaBlock, target: Target, tool: Seq<char>, ver: Seq<char>) -> Seq<
    char,
> {
    line_text(banner_text(tool, ver), 0) + blanks(1) + line_text(
        "use sea_orm::entity::prelude::*;"@,
        0,
    ) + tables_text(s.tables@, s.refs@, target) + enums_decls_text(s.enums@)
}

/// The spec-level image of a transpilation result.
pub open spec fn result_view(r: Result<String, TranspileError>) -> Result<Seq<char>, ErrView> {
    match r {
        Ok(s) => Ok(s@),
        Err(e) => Err(e@),
    }
}

/// What transpilation returns: the first unsupported-kind error if any
/// relation has an unsupported kind, else the first missing-composition
/// error if any endpoint composes no column, else the full output text.
pub open spec fn spec_transpile(
    s: SchemaBlock,
    target: Target,
    tool: Seq<char>,
    ver: Seq<char>,
) -> Result<Seq<char>, ErrView> {
    match first_kind_err(s.refs@) {
        Some(e) => Err(e),
        None => match first_cols_err(s.refs@) {
            Some(e) => Err(e),
            None => Ok(output_text(s, target, tool, ver)),
        },
    }
}

/// Transpiles a schema under the given target dialect into entity module
/// text, stamped with the given tool name and version. A pure function of
/// its input: fails, with no output, on the first unsupported relation
/// kind, then on the first endpoint without a composition column.
#[verifier::rlimit(60)]
pub fn transpile(schema: &SchemaBlock, target: &Target, tool: &str, version: &str) -> (r: Result<
    String,
    TranspileError,
>)
    ensures
        result_view(r) == spec_transpile(*schema, *target, tool@, version@),
{
    match validate_refs(&schema.refs) {
        Err(e) => {
            return Err(e);
        },
        Ok(()) => {},
    }
    let mut banner = String::from_str("//! Generated by ");
    banner.append(tool);
    banner.append(" ");
    banner.append(version);
    let use_line = String::from_str("use sea_orm::entity::prelude::*;");
    let cg0 = Codegen::new();
    let ghost c0 = cg0.entries@;
    let mut cg = cg0.line(banner).line_skip(1).line(use_line);
    proof {
        reveal_strlit(" ");
        let e1 = c0.push(Entry::Line(banner));
        let e2 = e1.push(Entry::Skip(1));
        let e3 = e2.push(Entry::Line(use_line));
        assert(cg.entries@ == e3);
        lemma_entries_text_push(c0, Entry::Line(banner), 0);
        lemma_entries_text_push(e1, Entry::Skip(1), 0);
        lemma_entries_text_push(e2, Entry::Line(use_line), 0);
        assert(banner@ =~= banner_text(tool@, version@));
        assert(entries_text(cg.entries@, 0) =~= line_text(banner_text(tool@, version@), 0) + blanks(
            1,
        ) + line_text("use sea_orm::entity::prelude::*;"@, 0));
    }
    let ghost prefix = entries_text(cg.entries@, 0);
    let nt = schema.tables.len();
    let mut i: usize = 0;
    while i < nt
        invariant
            nt == schema.tables@.len(),
            i <= nt,
            forall|k: int| 0 <= k < schema.refs@.len() ==> ref_ok(#[trigger] schema.refs@[k]),
            entries_text(cg.entries@, 0) == prefix + tables_text(
                schema.tables@.take(i as int),
                schema.refs@,
                *target,
            ),
        decreases nt - i,
    {
        proof {
            assert(schema.tables@.take(i + 1).drop_last() =~= schema.tables@.take(i as int));
            assert(schema.tables@.take(i + 1).last() == schema.tables@[i as int]);
        }
        let tb = build_table_mod(&schema.tables[i], &schema.refs, target);
        let ghost tb_g = tb;
        let ghost cg_before = cg.entries@;
        cg = cg.line_skip(1).block(tb);
        proof {
            lemma_entries_text_push(cg_before, Entry::Skip(1), 0);
            lemma_entries_text_push(cg_before.push(Entry::Skip(1)), Entry::Sub(tb_g), 0);
            assert(entries_text(cg.entries@, 0) =~= prefix + tables_text(
                schema.tables@.take(i + 1),
                schema.refs@,
                *target,
            ));
        }
        i = i + 1;
    }
    proof {
        assert(schema.tables@.take(nt as int) =~= schema.tables@);
    }
    let ghost prefix2 = entries_text(cg.entries@, 0);
    let ne = schema.enums.len();
    let mut i: usize = 0;
    while i < ne
        invariant
            ne == schema.enums@.len(),
            i <= ne,
            entries_text(cg.entries@, 0) == prefix2 + enums_decls_text(
                schema.enums@.take(i as int),
            ),
        decreases ne - i,
    {
        proof {
            assert(schema.enums@.take(i + 1).drop_last() =~= schema.enums@.take(i as int));
            assert(schema.enums@.take(i + 1).last() == schema.enums@[i as int]);
        }
        let e = &schema.enums[i];
        let eb = build_enum_block(e);
        let derive_line = String::from_str(
            "#[derive(Clone, Debug, PartialEq, EnumIter, DeriveActiveEnum)]",
        );
        let sn = schema_name_str(&e.schema);
        let mut sattr = String::from_str("#[sea_orm(rs_type = \"String\", db_type = \"Enum\", enum_name = \"");
        sattr.append(e.name.as_str());
        sattr.append("\", schema_name = \"");
        sattr.append(sn.as_str());
        sattr.append("\")]");
        let ghost eb_g = eb;
        let ghost cg_before = cg.entries@;
        cg = cg.line_skip(1).line(derive_line).line(sattr).block(eb);
        proof {
            let e1 = cg_before.push(Entry::Skip(1));
            let e2 = e1.push(Entry::Line(derive_line));
            let e3 = e2.push(Entry::Line(sattr));
            let e4 = e3.push(Entry::Sub(eb_g));
            assert(cg.entries@ == e4);
            lemma_entries_text_push(cg_before, Entry::Skip(1), 0);
            lemma_entries_text_push(e1, Entry::Line(derive_line), 0);
            lemma_entries_text_push(e2, Entry::Line(sattr), 0);
            lemma_entries_text_push(e3, Entry::Sub(eb_g), 0);
            assert(sattr@ =~= "#[sea_orm(rs_type = \"String\", db_type = \"Enum\", enum_name = \""@
                + schema.enums@[i as int].name@ + "\", schema_name = \""@ + schema_name_text(
                schema.enums@[i as int].schema,
            ) + "\")]"@);
            assert(entries_text(cg.entries@, 0) =~= prefix2 + enums_decls_text(
                schema.enums@.take(i + 1),
            ));
        }
        i = i + 1;
    }
    proof {
        assert(schema.enums@.take(ne as int) =~= schema.enums@);
    }
    let out = cg.render();
    proof {
        assert(out@ =~= output_text(*schema, *target, tool@, version@));
    }
    Ok(out)
}

/// Transpilation is deterministic: any two results that transpilation may
/// return for the same schema, target, tool and version are identical,
/// byte for byte in the success case.
pub proof fn lemma_transpile_deterministic(
    s: SchemaBlock,
    target: Target,
    tool: Seq<char>,
    ver: Seq<char>,
    r1: Result<String, TranspileError>,
    r2: Result<String, TranspileError>,
)
    requires
        result_view(r1) == spec_transpile(s, target, tool, ver),
        result_view(r2) == spec_transpile(s, target, tool, ver),
    ensures
        result_view(r1) == result_view(r2),
{
}

/// A relation of unsupported kind makes the first-kind scan fail with an
/// unsupported-kind error.
proof fn lemma_first_kind_err_of_bad(refs: Seq<RefBlock>, i: int)
    requires
        0 <= i < refs.len(),
        !ref_kind_ok(refs[i]),
    ensures
        first_kind_err(refs) is Some,
        first_kind_err(refs)->0 is UnsupportedRelationKind,
    decreases refs.len(),
{
    if !ref_kind_ok(refs[0]) {
    } else {
        assert(refs.drop_first()[i - 1] == refs[i]);
        lemma_first_kind_err_of_bad(refs.drop_first(), i - 1);
    }
}

/// Any one-to-many, many-to-many or undefined relation anywhere in the
/// schema makes transpilation fail with an unsupported-relation-kind
/// error, before any output is produced.
pub proof fn lemma_unsupported_kind_fails(
    s: SchemaBlock,
    target: Target,
    tool: Seq<char>,
    ver: Seq<char>,
    i: int,
)
    requires
        0 <= i < s.refs@.len(),
        s.refs@[i].rel is One2Many || s.refs@[i].rel is Many2Many || s.refs@[i].rel is Undef,
    ensures
        spec_transpile(s, target, tool, ver) is Err,
        spec_transpile(s, target, tool, ver)->Err_0 is UnsupportedRelationKind,
{
    lemma_first_kind_err_of_bad(s.refs@, i);
}

} // verus!

