//! Relation descriptors: typed edges between two table endpoints, with
//! cardinality, optional referential actions, and the per-table partition
//! of the schema-wide relation list into self, outgoing and incoming edges.

use vstd::prelude::*;

verus! {

/// Cardinality and direction of a relation edge.
#[derive(Debug, PartialEq, Eq, Clone, Copy, Default)]
pub enum Relation {
    #[default]
    Undef,
    One2One,
    One2Many,
    Many2One,
    Many2Many,
}

/// A referential action attached to a relation (on delete / on update).
#[derive(Debug, PartialEq, Eq, Clone, Copy)]
pub enum RefAction {
    Cascade,
    Restrict,
    SetNull,
    SetDefault,
    NoAction,
}

/// Optional referential actions of a relation.
#[derive(Debug, PartialEq, Eq, Clone)]
pub struct RefSettings {
    pub on_delete: Option<RefAction>,
    pub on_update: Option<RefAction>,
}

/// One side of a relation: optional schema name, table name, and the
/// ordered, non-empty list of composed column names (composite keys).
#[derive(Debug, PartialEq, Eq, Clone, Default)]
pub struct RefId {
    pub schema: Option<String>,
    pub table: String,
    pub compositions: Vec<String>,
}

/// A relation descriptor. The target endpoint `rhs` is always present;
/// the source endpoint `lhs` may be absent, which the transpiler reports
/// as a missing composition column (an absent source composes no columns).
#[derive(Debug, PartialEq, Eq, Clone, Default)]
pub struct RefBlock {
    pub rel: Relation,
    pub lhs: Option<RefId>,
    pub rhs: RefId,
    pub settings: Option<RefSettings>,
}

/// Only one-to-one and many-to-one edges are supported by the transpiler.
pub open spec fn ref_kind_ok(r: RefBlock) -> bool {
    r.rel is One2One || r.rel is Many2One
}

/// Both endpoints are present and compose at least one column each.
pub open spec fn ref_cols_ok(r: RefBlock) -> bool {
    &&& r.lhs is Some
    &&& r.lhs->0.compositions.len() > 0
    &&& r.rhs.compositions.len() > 0
}

/// A relation the transpiler accepts.
pub open spec fn ref_ok(r: RefBlock) -> bool {
    ref_kind_ok(r) && ref_cols_ok(r)
}

/// A self edge on table `t`: both endpoints name `t`.
pub open spec fn is_self_ref(r: RefBlock, t: Seq<char>) -> bool {
    r.lhs is Some && r.lhs->0.table@ == t && r.rhs.table@ == t
}

/// An outgoing edge of table `t`: source is `t`, target is another table.
pub open spec fn is_outgoing(r: RefBlock, t: Seq<char>) -> bool {
    r.lhs is Some && r.lhs->0.table@ == t && r.rhs.table@ != t
}

/// An incoming edge of table `t`: target is `t`, source is another table.
pub open spec fn is_incoming(r: RefBlock, t: Seq<char>) -> bool {
    r.lhs is Some && r.lhs->0.table@ != t && r.rhs.table@ == t
}

/// Indices (in order) of the self edges of `t` within `refs`.
pub open spec fn self_idx_of(refs: Seq<RefBlock>, t: Seq<char>) -> Seq<usize>
    decreases refs.len(),
{
    if refs.len() == 0 {
        Seq::empty()
    } else if is_self_ref(refs.last(), t) {
        self_idx_of(refs.drop_last(), t).push((refs.len() - 1) as usize)
    } else {
        self_idx_of(refs.drop_last(), t)
    }
}

/// Indices (in order) of the outgoing edges of `t` within `refs`.
pub open spec fn outgoing_idx_of(refs: Seq<RefBlock>, t: Seq<char>) -> Seq<usize>
    decreases refs.len(),
{
    if refs.len() == 0 {
        Seq::empty()
    } else if is_outgoing(refs.last(), t) {
        outgoing_idx_of(refs.drop_last(), t).push((refs.len() - 1) as usize)
    } else {
        outgoing_idx_of(refs.drop_last(), t)
    }
}

/// Indices (in order) of the incoming edges of `t` within `refs`.
pub open spec fn incoming_idx_of(refs: Seq<RefBlock>, t: Seq<char>) -> Seq<usize>
    decreases refs.len(),
{
    if refs.len() == 0 {
        Seq::empty()
    } else if is_incoming(refs.last(), t) {
        incoming_idx_of(refs.drop_last(), t).push((refs.len() - 1) as usize)
    } else {
        incoming_idx_of(refs.drop_last(), t)
    }
}

/// Per-table partition of the schema's relation list, as index lists into
/// that list: self edges, then outgoing, then incoming, each preserving
/// the original order.
pub struct RelationIndex {
    pub selfs: Vec<usize>,
    pub outgoing: Vec<usize>,
    pub incoming: Vec<usize>,
}

impl RelationIndex {
    /// Well-formedness against the relation list and table name it was
    /// built from.
    pub open spec fn wf(self, refs: Seq<RefBlock>, t: Seq<char>) -> bool {
        &&& self.selfs@ == self_idx_of(refs, t)
        &&& self.outgoing@ == outgoing_idx_of(refs, t)
        &&& self.incoming@ == incoming_idx_of(refs, t)
    }

    /// Partitions `refs` for the table named `t`.
    pub fn build(refs: &Vec<RefBlock>, t: &String) -> (out: RelationIndex)
        ensures
            out.wf(refs@, t@),
    {
        let mut selfs: Vec<usize> = Vec::new();
        let mut outgoing: Vec<usize> = Vec::new();
        let mut incoming: Vec<usize> = Vec::new();
        let n = refs.len();
        let mut i: usize = 0;
        while i < n
            invariant
                n == refs@.len(),
                i <= n,
                selfs@ == self_idx_of(refs@.take(i as int), t@),
                outgoing@ == outgoing_idx_of(refs@.take(i as int), t@),
                incoming@ == incoming_idx_of(refs@.take(i as int), t@),
            decreases n - i,
        {
            proof {
                assert(refs@.take(i + 1).drop_last() =~= refs@.take(i as int));
                assert(refs@.take(i + 1).last() == refs@[i as int]);
            }
            let r = &refs[i];
            match &r.lhs {
                Some(lhs) => {
                    let src_here = lhs.table == *t;
                    let dst_here = r.rhs.table == *t;
                    if src_here && dst_here {
                        selfs.push(i);
                    } else if src_here {
                        outgoing.push(i);
                    } else if dst_here {
                        incoming.push(i);
                    }
                },
                None => {},
            }
            i = i + 1;
        }
        proof {
            assert(refs@.take(n as int) =~= refs@);
        }
        RelationIndex { selfs, outgoing, incoming }
    }
}

} // verus!
