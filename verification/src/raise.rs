//! From the solver's model back to the analyzer's.
//!
//! The conversion is stated by [`raise_ty`] and its companions. What the
//! solver carries and the analyzer does not model (lifetimes, array
//! lengths) is dropped. Binders that this layer only ever creates empty
//! (around function pointers and where-clauses) are removed, which fails
//! when something is bound by them. Handles are resolved in the interning
//! table. An inference variable of the solver becomes the unknown type.
use vstd::prelude::*;
use crate::error::ConversionError;
use crate::ids::{InternKey, TraitId, TypeAliasId};
use crate::intern::InternTable;
use crate::primitive::{root_universe, spec_root_universe};
use crate::rank::{
    lemma_rank_arg_in_args, lemma_rank_clause_in_clauses, lemma_shift_keeps_rank_args, lemma_shift_keeps_rank_where_clause, rank_alias, rank_arg, rank_args,
    rank_clause, rank_clauses, rank_ty, rank_where_clause,
};
use crate::shift::{Direction, shift_args, shift_where_clause};
use crate::solver;
use crate::ty;

verus! {

/// The identity behind a handle, if the table gave the handle out.
pub open spec fn key_at(table: Seq<InternKey>, handle: usize) -> Option<InternKey> {
    if handle < table.len() {
        Some(table[handle as int])
    } else {
        None
    }
}

/// A generic argument as a type. Lifetimes and constants have no such form.
pub open spec fn raise_arg(a: solver::GenericArgView, table: Seq<InternKey>) -> Result<ty::TyView, ConversionError>
    decreases rank_arg(a), 0nat,
{
    match a {
        solver::GenericArgView::Ty(t) => raise_ty(t, table),
        _ => Err(ConversionError::UnsupportedGenericArg),
    }
}

/// The arguments of `s` as types, or the first failure among them.
pub open spec fn raise_args(s: Seq<solver::GenericArgView>, table: Seq<InternKey>) -> Result<Seq<ty::TyView>, ConversionError>
    decreases rank_args(s), s.len(),
{
    if s.len() == 0 {
        Ok(Seq::empty())
    } else {
        match raise_args(s.drop_last(), table) {
            Ok(acc) => match raise_arg(s.last(), table) {
                Ok(t) => Ok(acc.push(t)),
                Err(e) => Err(e),
            },
            Err(e) => Err(e),
        }
    }
}

/// The body of a where-clause as a predicate.
pub open spec fn raise_where_clause(wc: solver::WhereClauseView, table: Seq<InternKey>) -> Result<ty::PredicateView, ConversionError>
    decreases rank_where_clause(wc), 0nat,
{
    match wc {
        solver::WhereClauseView::Implemented(tr) => match raise_args(tr.substitution, table) {
            Ok(s) => Ok(
                ty::PredicateView::Implemented(
                    ty::TraitRefView { trait_: TraitId(tr.trait_id.0), substs: s },
                ),
            ),
            Err(e) => Err(e),
        },
        solver::WhereClauseView::AliasEq(alias, t) => match alias {
            solver::AliasTyView::Projection(p) => match raise_args(p.substitution, table) {
                Ok(s) => match raise_ty(t, table) {
                    Ok(t2) => Ok(
                        ty::PredicateView::Projection(
                            ty::ProjectionPredicateView {
                                projection_ty: ty::ProjectionTyView {
                                    associated_ty: TypeAliasId(p.associated_ty_id.0),
                                    parameters: s,
                                },
                                ty: t2,
                            },
                        ),
                    ),
                    Err(e) => Err(e),
                },
                Err(e) => Err(e),
            },
            solver::AliasTyView::Opaque(_, _) => Err(ConversionError::UnsupportedOpaqueAlias),
        },
        solver::WhereClauseView::LifetimeOutlives(_, _) => Err(ConversionError::UnsupportedOutlives),
        solver::WhereClauseView::TypeOutlives(_, _) => Err(ConversionError::UnsupportedOutlives),
    }
}

/// A quantified where-clause as a predicate: the binders are taken to bind
/// nothing, and the body is moved out of them.
pub open spec fn raise_clause(q: solver::QuantifiedWhereClauseView, table: Seq<InternKey>) -> Result<ty::PredicateView, ConversionError>
    decreases rank_clause(q), 0nat,
{
    match shift_where_clause(q.value, 0, 1, Direction::Out) {
        Some(wc) => {
            proof {
                lemma_shift_keeps_rank_where_clause(q.value, 0, 1, Direction::Out);
            }
            raise_where_clause(wc, table)
        },
        None => Err(ConversionError::EscapingBoundVar),
    }
}

/// The clauses of `s` as predicates, or the first failure among them.
pub open spec fn raise_clauses(s: Seq<solver::QuantifiedWhereClauseView>, table: Seq<InternKey>) -> Result<Seq<ty::PredicateView>, ConversionError>
    decreases rank_clauses(s), s.len(),
{
    if s.len() == 0 {
        Ok(Seq::empty())
    } else {
        match raise_clauses(s.drop_last(), table) {
            Ok(acc) => match raise_clause(s.last(), table) {
                Ok(p) => Ok(acc.push(p)),
                Err(e) => Err(e),
            },
            Err(e) => Err(e),
        }
    }
}

/// A one-element substitution holding the analyzer's form of `t`.
pub open spec fn raise_single(t: solver::TyView, table: Seq<InternKey>) -> Result<Seq<ty::TyView>, ConversionError>
    decreases rank_ty(t), 1nat,
{
    match raise_ty(t, table) {
        Ok(t2) => Ok(seq![t2]),
        Err(e) => Err(e),
    }
}

/// The analyzer's form of an alias type.
pub open spec fn raise_alias(a: solver::AliasTyView, table: Seq<InternKey>) -> Result<ty::TyView, ConversionError>
    decreases rank_alias(a), 0nat,
{
    match a {
        solver::AliasTyView::Projection(p) => match raise_args(p.substitution, table) {
            Ok(s) => Ok(ty::TyView::Projection(TypeAliasId(p.associated_ty_id.0), s)),
            Err(e) => Err(e),
        },
        solver::AliasTyView::Opaque(id, s) => match key_at(table, id.0) {
            Some(InternKey::ImplTrait(key)) => match raise_args(s, table) {
                Ok(s2) => Ok(ty::TyView::Opaque(key, s2)),
                Err(e) => Err(e),
            },
            _ => Err(ConversionError::UnknownHandle),
        },
    }
}

/// The analyzer's form of a type, or the reason why it has none.
pub open spec fn raise_ty(t: solver::TyView, table: Seq<InternKey>) -> Result<ty::TyView, ConversionError>
    decreases rank_ty(t), 0nat,
{
    match t {
        solver::TyView::Error => Ok(ty::TyView::Unknown),
        solver::TyView::Array(e, _) => match raise_single(*e, table) {
            Ok(s) => Ok(ty::TyView::Array(s)),
            Err(e) => Err(e),
        },
        solver::TyView::Placeholder(p) => if p.ui != spec_root_universe() {
            Err(ConversionError::NonRootUniverse)
        } else {
            match key_at(table, p.idx) {
                Some(InternKey::TypeParam(id)) => Ok(ty::TyView::Placeholder(id)),
                _ => Err(ConversionError::UnknownHandle),
            }
        },
        solver::TyView::Alias(alias) => {
            proof {
                assert(rank_alias(alias) >= 1);
            }
            raise_alias(alias, table)
        },
        solver::TyView::Function { num_binders, sig, substitution } => if num_binders != 0 {
            Err(ConversionError::FnPointerBinders)
        } else {
            match shift_args(substitution, 0, 1, Direction::Out) {
                Some(moved) => {
                    proof {
                        lemma_shift_keeps_rank_args(substitution, 0, 1, Direction::Out);
                    }
                    match raise_args(moved, table) {
                        Ok(s) => if s.len() == 0 {
                            Err(ConversionError::MissingTypeArgument)
                        } else {
                            Ok(
                                ty::TyView::Function {
                                    num_args: (s.len() - 1) as usize,
                                    variadic: sig.variadic,
                                    substs: s,
                                },
                            )
                        },
                        Err(e) => Err(e),
                    }
                },
                None => Err(ConversionError::EscapingBoundVar),
            }
        },
        solver::TyView::BoundVar(bv) => Ok(ty::TyView::BoundVar(bv)),
        solver::TyView::InferenceVar(_, _) => Ok(ty::TyView::Unknown),
        solver::TyView::Dyn { binders, bounds, lifetime } => if binders.len() != 1 {
            Err(ConversionError::DynBinders)
        } else {
            match raise_clauses(bounds, table) {
                Ok(preds) => Ok(ty::TyView::Dyn(preds)),
                Err(e) => Err(e),
            }
        },
        solver::TyView::Adt(id, s) => match raise_args(s, table) {
            Ok(s2) => Ok(ty::TyView::Adt(id.0, s2)),
            Err(e) => Err(e),
        },
        solver::TyView::AssociatedType(id, s) => match raise_args(s, table) {
            Ok(s2) => Ok(ty::TyView::AssociatedType(TypeAliasId(id.0), s2)),
            Err(e) => Err(e),
        },
        solver::TyView::OpaqueType(id, s) => match key_at(table, id.0) {
            Some(InternKey::ImplTrait(key)) => match raise_args(s, table) {
                Ok(s2) => Ok(ty::TyView::OpaqueType(key, s2)),
                Err(e) => Err(e),
            },
            _ => Err(ConversionError::UnknownHandle),
        },
        solver::TyView::Scalar(s) => Ok(ty::TyView::Scalar(s)),
        solver::TyView::Tuple(n, s) => match raise_args(s, table) {
            Ok(s2) => Ok(ty::TyView::Tuple(n, s2)),
            Err(e) => Err(e),
        },
        solver::TyView::Raw(m, e) => match raise_single(*e, table) {
            Ok(s) => Ok(ty::TyView::Raw(m, s)),
            Err(e) => Err(e),
        },
        solver::TyView::Slice(e) => match raise_single(*e, table) {
            Ok(s) => Ok(ty::TyView::Slice(s)),
            Err(e) => Err(e),
        },
        solver::TyView::Ref(m, _, e) => match raise_single(*e, table) {
            Ok(s) => Ok(ty::TyView::Ref(m, s)),
            Err(e) => Err(e),
        },
        solver::TyView::Str => Ok(ty::TyView::Str),
        solver::TyView::Never => Ok(ty::TyView::Never),
        solver::TyView::FnDef(id, s) => match key_at(table, id.0) {
            Some(InternKey::Callable(key)) => match raise_args(s, table) {
                Ok(s2) => Ok(ty::TyView::FnDef(key, s2)),
                Err(e) => Err(e),
            },
            _ => Err(ConversionError::UnknownHandle),
        },
        solver::TyView::Closure(id, s) => match key_at(table, id.0) {
            Some(InternKey::Closure(def, expr)) => match raise_args(s, table) {
                Ok(s2) => Ok(ty::TyView::Closure(def, expr, s2)),
                Err(e) => Err(e),
            },
            _ => Err(ConversionError::UnknownHandle),
        },
        solver::TyView::Foreign(id) => Ok(ty::TyView::ForeignType(TypeAliasId(id.0))),
        solver::TyView::Generator(_, _) => Err(ConversionError::UnsupportedGenerator),
        solver::TyView::GeneratorWitness(_, _) => Err(ConversionError::UnsupportedGenerator),
    }
}

/// A failure among the first arguments is the failure of the whole list.
pub proof fn lemma_raise_args_prefix_err(s: Seq<solver::GenericArgView>, k: int, table: Seq<InternKey>)
    requires
        0 <= k <= s.len(),
        raise_args(s.take(k), table) is Err,
    ensures
        raise_args(s, table) == raise_args(s.take(k), table),
    decreases s.len(),
{
    if k == s.len() {
        assert(s.take(k) =~= s);
    } else {
        assert(s.drop_last().take(k) =~= s.take(k));
        lemma_raise_args_prefix_err(s.drop_last(), k, table);
    }
}

/// A failure among the first clauses is the failure of the whole list.
pub proof fn lemma_raise_clauses_prefix_err(
    s: Seq<solver::QuantifiedWhereClauseView>,
    k: int,
    table: Seq<InternKey>,
)
    requires
        0 <= k <= s.len(),
        raise_clauses(s.take(k), table) is Err,
    ensures
        raise_clauses(s, table) == raise_clauses(s.take(k), table),
    decreases s.len(),
{
    if k == s.len() {
        assert(s.take(k) =~= s);
    } else {
        assert(s.drop_last().take(k) =~= s.take(k));
        lemma_raise_clauses_prefix_err(s.drop_last(), k, table);
    }
}

impl solver::GenericArg {
    /// The argument as a type of the analyzer.
    pub fn raise(&self, table: &InternTable) -> (r: Result<ty::Ty, ConversionError>)
        requires
            table.wf(),
        ensures
            match r {
                Ok(x) => raise_arg(self@, table@) == Ok::<_, ConversionError>(x@),
                Err(e) => raise_arg(self@, table@) == Err::<ty::TyView, _>(e),
            },
        decreases rank_arg(self@), 0nat,
    {
        match self {
            solver::GenericArg::Ty(t) => t.raise(table),
            _ => Err(ConversionError::UnsupportedGenericArg),
        }
    }
}

/// The executable counterpart of [`raise_args`].
pub fn raise_arg_vec(args: &Vec<solver::GenericArg>, table: &InternTable) -> (r: Result<Vec<ty::Ty>, ConversionError>)
    requires
        table.wf(),
    ensures
        match r {
            Ok(v) => raise_args(solver::args_view(args@), table@) == Ok::<_, ConversionError>(
                ty::tys_view(v@),
            ),
            Err(e) => raise_args(solver::args_view(args@), table@) == Err::<Seq<ty::TyView>, _>(e),
        },
    decreases rank_args(solver::args_view(args@)), args.len(),
{
    let ghost s = solver::args_view(args@);
    let mut out: Vec<ty::Ty> = Vec::new();
    let mut i: usize = 0;
    assert(s.take(0) =~= Seq::empty());
    assert(ty::tys_view(out@) =~= Seq::empty());
    while i < args.len()
        invariant
            i <= args.len(),
            table.wf(),
            s == solver::args_view(args@),
            raise_args(s.take(i as int), table@) == Ok::<_, ConversionError>(ty::tys_view(out@)),
        decreases args.len() - i,
    {
        let ghost prev = ty::tys_view(out@);
        proof {
            assert(s.take(i + 1).drop_last() =~= s.take(i as int));
            assert(s.take(i + 1).last() == s[i as int]);
            lemma_rank_arg_in_args(s, i as int);
        }
        match args[i].raise(table) {
            Ok(t) => {
                out.push(t);
                assert(ty::tys_view(out@) =~= prev.push(t@));
            },
            Err(e) => {
                proof {
                    lemma_raise_args_prefix_err(s, i + 1, table@);
                }
                return Err(e);
            },
        }
        i += 1;
    }
    assert(s.take(args.len() as int) =~= s);
    Ok(out)
}

impl solver::Substitution {
    /// The substitution as one of the analyzer: element by element, order
    /// and length kept.
    pub fn raise(&self, table: &InternTable) -> (r: Result<ty::Substs, ConversionError>)
        requires
            table.wf(),
        ensures
            match r {
                Ok(x) => raise_args(self@, table@) == Ok::<_, ConversionError>(x@),
                Err(e) => raise_args(self@, table@) == Err::<Seq<ty::TyView>, _>(e),
            },
        decreases rank_args(self@), self@.len() + 1,
    {
        match raise_arg_vec(&self.0, table) {
            Ok(v) => Ok(ty::Substs(v)),
            Err(e) => Err(e),
        }
    }
}

impl solver::WhereClause {
    /// The clause as a predicate of the analyzer.
    pub fn raise(&self, table: &InternTable) -> (r: Result<ty::GenericPredicate, ConversionError>)
        requires
            table.wf(),
        ensures
            match r {
                Ok(x) => raise_where_clause(self@, table@) == Ok::<_, ConversionError>(x@),
                Err(e) => raise_where_clause(self@, table@) == Err::<ty::PredicateView, _>(e),
            },
        decreases rank_where_clause(self@), 0nat,
    {
        match self {
            solver::WhereClause::Implemented(tr) => match tr.substitution.raise(table) {
                Ok(s) => Ok(
                    ty::GenericPredicate::Implemented(
                        ty::TraitRef { trait_: TraitId(tr.trait_id.0), substs: s },
                    ),
                ),
                Err(e) => Err(e),
            },
            solver::WhereClause::AliasEq(eq) => match &eq.alias {
                solver::AliasTy::Projection(p) => {
                    assert(rank_alias(eq.alias@) > rank_args(p.substitution@));
                    match p.substitution.raise(table) {
                        Ok(s) => match eq.ty.raise(table) {
                            Ok(t) => Ok(
                                ty::GenericPredicate::Projection(
                                    ty::ProjectionPredicate {
                                        projection_ty: ty::ProjectionTy {
                                            associated_ty: TypeAliasId(p.associated_ty_id.0),
                                            parameters: s,
                                        },
                                        ty: t,
                                    },
                                ),
                            ),
                            Err(e) => Err(e),
                        },
                        Err(e) => Err(e),
                    }
                },
                solver::AliasTy::Opaque(_) => Err(ConversionError::UnsupportedOpaqueAlias),
            },
            solver::WhereClause::LifetimeOutlives(_, _) => Err(ConversionError::UnsupportedOutlives),
            solver::WhereClause::TypeOutlives(_, _) => Err(ConversionError::UnsupportedOutlives),
        }
    }
}

impl solver::QuantifiedWhereClause {
    /// The clause as a predicate of the analyzer, its binders removed.
    pub fn raise(&self, table: &InternTable) -> (r: Result<ty::GenericPredicate, ConversionError>)
        requires
            table.wf(),
        ensures
            match r {
                Ok(x) => raise_clause(self@, table@) == Ok::<_, ConversionError>(x@),
                Err(e) => raise_clause(self@, table@) == Err::<ty::PredicateView, _>(e),
            },
        decreases rank_clause(self@), 0nat,
    {
        match self.value.shifted_out(1) {
            Some(wc) => {
                proof {
                    lemma_shift_keeps_rank_where_clause(self.value@, 0, 1, Direction::Out);
                }
                wc.raise(table)
            },
            None => Err(ConversionError::EscapingBoundVar),
        }
    }
}

/// The executable counterpart of [`raise_clauses`].
pub fn raise_clause_vec(clauses: &Vec<solver::QuantifiedWhereClause>, table: &InternTable) -> (r: Result<Vec<ty::GenericPredicate>, ConversionError>)
    requires
        table.wf(),
    ensures
        match r {
            Ok(v) => raise_clauses(solver::clauses_view(clauses@), table@) == Ok::<_, ConversionError>(
                ty::preds_view(v@),
            ),
            Err(e) => raise_clauses(solver::clauses_view(clauses@), table@) == Err::<Seq<ty::PredicateView>, _>(e),
        },
    decreases rank_clauses(solver::clauses_view(clauses@)), clauses.len(),
{
    let ghost s = solver::clauses_view(clauses@);
    let mut out: Vec<ty::GenericPredicate> = Vec::new();
    let mut i: usize = 0;
    assert(s.take(0) =~= Seq::empty());
    assert(ty::preds_view(out@) =~= Seq::empty());
    while i < clauses.len()
        invariant
            i <= clauses.len(),
            table.wf(),
            s == solver::clauses_view(clauses@),
            raise_clauses(s.take(i as int), table@) == Ok::<_, ConversionError>(ty::preds_view(out@)),
        decreases clauses.len() - i,
    {
        let ghost prev = ty::preds_view(out@);
        proof {
            assert(s.take(i + 1).drop_last() =~= s.take(i as int));
            assert(s.take(i + 1).last() == s[i as int]);
            lemma_rank_clause_in_clauses(s, i as int);
        }
        match clauses[i].raise(table) {
            Ok(p) => {
                out.push(p);
                assert(ty::preds_view(out@) =~= prev.push(p@));
            },
            Err(e) => {
                proof {
                    lemma_raise_clauses_prefix_err(s, i + 1, table@);
                }
                return Err(e);
            },
        }
        i += 1;
    }
    assert(s.take(clauses.len() as int) =~= s);
    Ok(out)
}

impl solver::AliasTy {
    /// The alias as a type of the analyzer.
    pub fn raise(&self, table: &InternTable) -> (r: Result<ty::Ty, ConversionError>)
        requires
            table.wf(),
        ensures
            match r {
                Ok(x) => raise_alias(self@, table@) == Ok::<_, ConversionError>(x@),
                Err(e) => raise_alias(self@, table@) == Err::<ty::TyView, _>(e),
            },
        decreases rank_alias(self@), 0nat,
    {
        match self {
            solver::AliasTy::Projection(p) => match p.substitution.raise(table) {
                Ok(s) => {
                    let alias = ty::AliasTy::Projection(
                        ty::ProjectionTy {
                            associated_ty: TypeAliasId(p.associated_ty_id.0),
                            parameters: s,
                        },
                    );
                    assert(alias@ is Projection);
                    Ok(ty::Ty::Alias(alias))
                },
                Err(e) => Err(e),
            },
            solver::AliasTy::Opaque(o) => match table.lookup(o.opaque_ty_id.0) {
                Some(InternKey::ImplTrait(key)) => match o.substitution.raise(table) {
                    Ok(s) => {
                        let alias = ty::AliasTy::Opaque(
                            ty::OpaqueTy { opaque_ty_id: key, parameters: s },
                        );
                        assert(alias@ is Opaque);
                        Ok(ty::Ty::Alias(alias))
                    },
                    Err(e) => Err(e),
                },
                _ => Err(ConversionError::UnknownHandle),
            },
        }
    }
}

impl solver::Ty {
    /// Types without arguments, and the shapes that are not supported.
    fn raise_leaf(&self, table: &InternTable) -> (r: Result<ty::Ty, ConversionError>)
        requires
            table.wf(),
            self is Error || self is Placeholder || self is BoundVar || self is InferenceVar
                || self is Scalar || self is Str || self is Never || self is Foreign
                || self is Generator || self is GeneratorWitness,
        ensures
            match r {
                Ok(x) => raise_ty(self@, table@) == Ok::<_, ConversionError>(x@),
                Err(e) => raise_ty(self@, table@) == Err::<ty::TyView, _>(e),
            },
        decreases rank_ty(self@), 1nat,
    {
        match self {
            solver::Ty::Error => Ok(ty::Ty::Unknown),
            solver::Ty::Placeholder(p) => {
                if p.ui != root_universe() {
                    Err(ConversionError::NonRootUniverse)
                } else {
                    match table.lookup(p.idx) {
                        Some(InternKey::TypeParam(id)) => Ok(ty::Ty::Placeholder(id)),
                        _ => Err(ConversionError::UnknownHandle),
                    }
                }
            },
            solver::Ty::BoundVar(bv) => Ok(ty::Ty::BoundVar(*bv)),
            solver::Ty::InferenceVar(_, _) => Ok(ty::Ty::Unknown),
            solver::Ty::Scalar(s) => Ok(ty::Ty::Scalar(*s)),
            solver::Ty::Str => Ok(ty::Ty::Str),
            solver::Ty::Never => Ok(ty::Ty::Never),
            solver::Ty::Foreign(id) => Ok(ty::Ty::ForeignType(TypeAliasId(id.0))),
            _ => Err(ConversionError::UnsupportedGenerator),
        }
    }

    /// Definitions applied to arguments.
    fn raise_applied(&self, table: &InternTable) -> (r: Result<ty::Ty, ConversionError>)
        requires
            table.wf(),
            self is Adt || self is AssociatedType || self is OpaqueType || self is Tuple
                || self is FnDef || self is Closure,
        ensures
            match r {
                Ok(x) => raise_ty(self@, table@) == Ok::<_, ConversionError>(x@),
                Err(e) => raise_ty(self@, table@) == Err::<ty::TyView, _>(e),
            },
        decreases rank_ty(self@), 1nat,
    {
        match self {
            solver::Ty::Adt(id, s) => match s.raise(table) {
                Ok(s2) => Ok(ty::Ty::Adt(id.0, s2)),
                Err(e) => Err(e),
            },
            solver::Ty::AssociatedType(id, s) => match s.raise(table) {
                Ok(s2) => Ok(ty::Ty::AssociatedType(TypeAliasId(id.0), s2)),
                Err(e) => Err(e),
            },
            solver::Ty::OpaqueType(id, s) => match table.lookup(id.0) {
                Some(InternKey::ImplTrait(key)) => match s.raise(table) {
                    Ok(s2) => Ok(ty::Ty::OpaqueType(key, s2)),
                    Err(e) => Err(e),
                },
                _ => Err(ConversionError::UnknownHandle),
            },
            solver::Ty::Tuple(n, s) => match s.raise(table) {
                Ok(s2) => Ok(ty::Ty::Tuple(*n, s2)),
                Err(e) => Err(e),
            },
            solver::Ty::FnDef(id, s) => match table.lookup(id.0) {
                Some(InternKey::Callable(key)) => match s.raise(table) {
                    Ok(s2) => Ok(ty::Ty::FnDef(key, s2)),
                    Err(e) => Err(e),
                },
                _ => Err(ConversionError::UnknownHandle),
            },
            solver::Ty::Closure(id, s) => match table.lookup(id.0) {
                Some(InternKey::Closure(def, expr)) => match s.raise(table) {
                    Ok(s2) => Ok(ty::Ty::Closure(def, expr, s2)),
                    Err(e) => Err(e),
                },
                _ => Err(ConversionError::UnknownHandle),
            },
            _ => Err(ConversionError::UnknownHandle),
        }
    }

    /// The element of a pointer-like type as a one-element substitution.
    fn raise_single(&self, table: &InternTable) -> (r: Result<ty::Substs, ConversionError>)
        requires
            table.wf(),
        ensures
            match r {
                Ok(x) => raise_single(self@, table@) == Ok::<_, ConversionError>(x@),
                Err(e) => raise_single(self@, table@) == Err::<Seq<ty::TyView>, _>(e),
            },
        decreases rank_ty(self@), 3nat,
    {
        match self.raise(table) {
            Ok(t) => Ok(ty::Substs::single(t)),
            Err(e) => Err(e),
        }
    }

    /// Pointer-like types.
    fn raise_pointer(&self, table: &InternTable) -> (r: Result<ty::Ty, ConversionError>)
        requires
            table.wf(),
            self is Array || self is Raw || self is Slice || self is Ref,
        ensures
            match r {
                Ok(x) => raise_ty(self@, table@) == Ok::<_, ConversionError>(x@),
                Err(e) => raise_ty(self@, table@) == Err::<ty::TyView, _>(e),
            },
        decreases rank_ty(self@), 1nat,
    {
        match self {
            solver::Ty::Array(e, _) => match e.raise_single(table) {
                Ok(s) => Ok(ty::Ty::Array(s)),
                Err(e) => Err(e),
            },
            solver::Ty::Raw(m, e) => match e.raise_single(table) {
                Ok(s) => Ok(ty::Ty::Raw(*m, s)),
                Err(e) => Err(e),
            },
            solver::Ty::Slice(e) => match e.raise_single(table) {
                Ok(s) => Ok(ty::Ty::Slice(s)),
                Err(e) => Err(e),
            },
            solver::Ty::Ref(m, _, e) => match e.raise_single(table) {
                Ok(s) => Ok(ty::Ty::Ref(*m, s)),
                Err(e) => Err(e),
            },
            _ => Err(ConversionError::UnknownHandle),
        }
    }

    /// Function pointers and trait objects.
    fn raise_bound(&self, table: &InternTable) -> (r: Result<ty::Ty, ConversionError>)
        requires
            table.wf(),
            self is Function || self is Dyn,
        ensures
            match r {
                Ok(x) => raise_ty(self@, table@) == Ok::<_, ConversionError>(x@),
                Err(e) => raise_ty(self@, table@) == Err::<ty::TyView, _>(e),
            },
        decreases rank_ty(self@), 1nat,
    {
        match self {
            solver::Ty::Function(f) => {
                if f.num_binders != 0 {
                    return Err(ConversionError::FnPointerBinders);
                }
                match f.substitution.shifted_out(1) {
                    Some(moved) => {
                        proof {
                            lemma_shift_keeps_rank_args(f.substitution@, 0, 1, Direction::Out);
                        }
                        match moved.raise(table) {
                            Ok(substs) => {
                                if substs.len() == 0 {
                                    Err(ConversionError::MissingTypeArgument)
                                } else {
                                    Ok(
                                        ty::Ty::Function(
                                            ty::FnPointer {
                                                num_args: substs.len() - 1,
                                                sig: ty::FnSig { variadic: f.sig.variadic },
                                                substs,
                                            },
                                        ),
                                    )
                                }
                            },
                            Err(e) => Err(e),
                        }
                    },
                    None => Err(ConversionError::EscapingBoundVar),
                }
            },
            solver::Ty::Dyn(d) => {
                if d.binders.len() != 1 {
                    return Err(ConversionError::DynBinders);
                }
                match raise_clause_vec(&d.bounds, table) {
                    Ok(preds) => Ok(ty::Ty::Dyn(preds)),
                    Err(e) => Err(e),
                }
            },
            _ => Err(ConversionError::UnknownHandle),
        }
    }

    /// The analyzer's form of the type.
    pub fn raise(&self, table: &InternTable) -> (r: Result<ty::Ty, ConversionError>)
        requires
            table.wf(),
        ensures
            match r {
                Ok(x) => raise_ty(self@, table@) == Ok::<_, ConversionError>(x@),
                Err(e) => raise_ty(self@, table@) == Err::<ty::TyView, _>(e),
            },
        decreases rank_ty(self@), 2nat,
    {
        match self {
            solver::Ty::Error
            | solver::Ty::Placeholder(_)
            | solver::Ty::BoundVar(_)
            | solver::Ty::InferenceVar(_, _)
            | solver::Ty::Scalar(_)
            | solver::Ty::Str
            | solver::Ty::Never
            | solver::Ty::Foreign(_)
            | solver::Ty::Generator(_, _)
            | solver::Ty::GeneratorWitness(_, _) => self.raise_leaf(table),
            solver::Ty::Adt(_, _)
            | solver::Ty::AssociatedType(_, _)
            | solver::Ty::OpaqueType(_, _)
            | solver::Ty::Tuple(_, _)
            | solver::Ty::FnDef(_, _)
            | solver::Ty::Closure(_, _) => self.raise_applied(table),
            solver::Ty::Array(_, _)
            | solver::Ty::Raw(_, _)
            | solver::Ty::Slice(_)
            | solver::Ty::Ref(_, _, _) => self.raise_pointer(table),
            solver::Ty::Function(_) | solver::Ty::Dyn(_) => self.raise_bound(table),
            solver::Ty::Alias(a) => {
                assert(rank_alias(a@) >= 1);
                a.raise(table)
            },
        }
    }
}

/// Substitution fidelity, inbound: the types that come out are as many as
/// the arguments, and each is the type of the argument at its position.
pub proof fn lemma_raise_args_keeps_order(a: Seq<solver::GenericArgView>, table: Seq<InternKey>)
    requires
        raise_args(a, table) is Ok,
    ensures
        raise_args(a, table)->Ok_0.len() == a.len(),
        forall|i: int| 0 <= i < a.len() ==> raise_arg(#[trigger] a[i], table) == Ok::<_, ConversionError>(
            raise_args(a, table)->Ok_0[i],
        ),
    decreases a.len(),
{
    if a.len() > 0 {
        lemma_raise_args_keeps_order(a.drop_last(), table);
        assert forall|i: int| 0 <= i < a.len() implies raise_arg(#[trigger] a[i], table) == Ok::<_, ConversionError>(
            raise_args(a, table)->Ok_0[i],
        ) by {
            if i < a.len() - 1 {
                assert(a.drop_last()[i] == a[i]);
            }
        }
    }
}

/// Zero-binder enforcement: a function pointer that declares binders of
/// its own has no form in the analyzer's model.
pub proof fn lemma_fn_pointer_binders_rejected(
    num_binders: usize,
    sig: solver::FnSig,
    substitution: Seq<solver::GenericArgView>,
    table: Seq<InternKey>,
)
    requires
        num_binders > 0,
    ensures
        raise_ty(solver::TyView::Function { num_binders, sig, substitution }, table) == Err::<ty::TyView, _>(
            ConversionError::FnPointerBinders,
        ),
{
}

} // verus!
