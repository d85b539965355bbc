//! The conversion pairs of every entity.
//!
//! [`ToChalk`] gives each entity of the analyzer its solver-side form and
//! the way there and back. What a conversion returns is stated by the two
//! relations of the trait, which each entity defines over the functions of
//! [`crate::lower`] and [`crate::raise`].
use vstd::prelude::*;
use crate::collect::{collect, lemma_collect_err, lemma_collect_ok};
use crate::error::ConversionError;
use crate::ids::{AdtId, CallableDefId, ImplId, InternKey, OpaqueTyId, TraitId, TypeAliasId};
use crate::intern::{
    InternTable, extends, handle_in, lemma_extends_trans, lemma_handle_of_position,
};
use crate::lower::{
    covers_pred, covers_preds, covers_ty, covers_tys, lemma_covers_preds_grow,
    lemma_covers_tys_grow, lower_bound_vec, lower_bounds, lower_pred, lower_ty, lower_tys, reg_key,
    reg_pred, reg_preds, reg_ty, reg_tys, register_preds, register_tys,
};
use crate::primitive::{TyVariableKind, root_universe, spec_root_universe};
use crate::raise::{
    key_at, raise_args, raise_clause, raise_clause_vec, raise_clauses, raise_ty,
};
use crate::solver;
use crate::ty;

verus! {

/// A value of the analyzer that has a form in the solver's model.
pub trait ToChalk: Sized {
    /// The solver's form.
    type Chalk;

    /// `r` is what converting `self` gives for `table`, and `table` knows
    /// every composite identity of `self`.
    spec fn lowers_to(&self, table: Seq<InternKey>, r: Result<Self::Chalk, ConversionError>) -> bool;

    /// The table after the composite identities of `self` were given
    /// handles.
    spec fn registered(&self, table: Seq<InternKey>) -> Seq<InternKey>;

    /// `r` is what converting `chalk` back gives for `table`.
    spec fn raised_from(chalk: &Self::Chalk, table: Seq<InternKey>, r: Result<Self, ConversionError>) -> bool;

    /// Converts to the solver's form. Identities that the table does not
    /// know yet are given handles, whether or not the conversion
    /// succeeds; no handle changes.
    fn to_chalk(&self, db: &mut InternTable) -> (r: Result<Self::Chalk, ConversionError>)
        requires
            old(db).wf(),
        ensures
            final(db).wf(),
            final(db)@ == self.registered(old(db)@),
            extends(final(db)@, old(db)@),
            self.lowers_to(final(db)@, r),
    ;

    /// Converts back from the solver's form.
    fn from_chalk(db: &InternTable, chalk: &Self::Chalk) -> (r: Result<Self, ConversionError>)
        requires
            db.wf(),
        ensures
            Self::raised_from(chalk, db@, r),
    ;
}

/// Converts back from the solver's form; the entity is chosen by the type
/// that is asked for.
pub fn from_chalk<T: ToChalk>(db: &InternTable, chalk: &T::Chalk) -> (r: Result<T, ConversionError>)
    requires
        db.wf(),
    ensures
        T::raised_from(chalk, db@, r),
{
    T::from_chalk(db, chalk)
}

/// Types.
impl ToChalk for ty::Ty {
    type Chalk = solver::Ty;

    open spec fn lowers_to(&self, table: Seq<InternKey>, r: Result<solver::Ty, ConversionError>) -> bool {
        &&& covers_ty(table, self@)
        &&& match r {
            Ok(x) => lower_ty(self@, table) == Ok::<_, ConversionError>(x@),
            Err(e) => lower_ty(self@, table) == Err::<solver::TyView, _>(e),
        }
    }

    open spec fn registered(&self, table: Seq<InternKey>) -> Seq<InternKey> {
        reg_ty(self@, table)
    }

    open spec fn raised_from(chalk: &solver::Ty, table: Seq<InternKey>, r: Result<ty::Ty, ConversionError>) -> bool {
        match r {
            Ok(x) => raise_ty(chalk@, table) == Ok::<_, ConversionError>(x@),
            Err(e) => raise_ty(chalk@, table) == Err::<ty::TyView, _>(e),
        }
    }

    fn to_chalk(&self, db: &mut InternTable) -> (r: Result<solver::Ty, ConversionError>) {
        self.register(db);
        self.lower(db)
    }

    fn from_chalk(db: &InternTable, chalk: &solver::Ty) -> (r: Result<ty::Ty, ConversionError>) {
        chalk.raise(db)
    }
}

/// Substitutions: element by element, order and length kept.
impl ToChalk for ty::Substs {
    type Chalk = solver::Substitution;

    open spec fn lowers_to(&self, table: Seq<InternKey>, r: Result<solver::Substitution, ConversionError>) -> bool {
        &&& covers_tys(table, self@)
        &&& match r {
            Ok(x) => lower_tys(self@, table) == Ok::<_, ConversionError>(x@),
            Err(e) => lower_tys(self@, table) == Err::<Seq<solver::GenericArgView>, _>(e),
        }
    }

    open spec fn registered(&self, table: Seq<InternKey>) -> Seq<InternKey> {
        reg_tys(self@, table)
    }

    open spec fn raised_from(chalk: &solver::Substitution, table: Seq<InternKey>, r: Result<ty::Substs, ConversionError>) -> bool {
        match r {
            Ok(x) => raise_args(chalk@, table) == Ok::<_, ConversionError>(x@),
            Err(e) => raise_args(chalk@, table) == Err::<Seq<ty::TyView>, _>(e),
        }
    }

    fn to_chalk(&self, db: &mut InternTable) -> (r: Result<solver::Substitution, ConversionError>) {
        register_tys(&self.0, db);
        self.lower(db)
    }

    fn from_chalk(db: &InternTable, parameters: &solver::Substitution) -> (r: Result<ty::Substs, ConversionError>) {
        parameters.raise(db)
    }
}

/// The solver's form of a trait reference.
pub open spec fn lower_trait_ref(tr: ty::TraitRefView, table: Seq<InternKey>) -> Result<solver::TraitRefView, ConversionError> {
    match lower_tys(tr.substs, table) {
        Ok(a) => Ok(solver::TraitRefView { trait_id: solver::TraitId(tr.trait_.0), substitution: a }),
        Err(e) => Err(e),
    }
}

/// The analyzer's form of a trait reference.
pub open spec fn raise_trait_ref(tr: solver::TraitRefView, table: Seq<InternKey>) -> Result<ty::TraitRefView, ConversionError> {
    match raise_args(tr.substitution, table) {
        Ok(s) => Ok(ty::TraitRefView { trait_: TraitId(tr.trait_id.0), substs: s }),
        Err(e) => Err(e),
    }
}

/// Trait references.
impl ToChalk for ty::TraitRef {
    type Chalk = solver::TraitRef;

    open spec fn lowers_to(&self, table: Seq<InternKey>, r: Result<solver::TraitRef, ConversionError>) -> bool {
        &&& covers_tys(table, self@.substs)
        &&& match r {
            Ok(x) => lower_trait_ref(self@, table) == Ok::<_, ConversionError>(x@),
            Err(e) => lower_trait_ref(self@, table) == Err::<solver::TraitRefView, _>(e),
        }
    }

    open spec fn registered(&self, table: Seq<InternKey>) -> Seq<InternKey> {
        reg_tys(self@.substs, table)
    }

    open spec fn raised_from(chalk: &solver::TraitRef, table: Seq<InternKey>, r: Result<ty::TraitRef, ConversionError>) -> bool {
        match r {
            Ok(x) => raise_trait_ref(chalk@, table) == Ok::<_, ConversionError>(x@),
            Err(e) => raise_trait_ref(chalk@, table) == Err::<ty::TraitRefView, _>(e),
        }
    }

    fn to_chalk(&self, db: &mut InternTable) -> (r: Result<solver::TraitRef, ConversionError>) {
        let trait_id = solver::TraitId(self.trait_.0);
        match self.substs.to_chalk(db) {
            Ok(substitution) => Ok(solver::TraitRef { trait_id, substitution }),
            Err(e) => Err(e),
        }
    }

    fn from_chalk(db: &InternTable, trait_ref: &solver::TraitRef) -> (r: Result<ty::TraitRef, ConversionError>) {
        let trait_ = TraitId(trait_ref.trait_id.0);
        match trait_ref.substitution.raise(db) {
            Ok(substs) => Ok(ty::TraitRef { trait_, substs }),
            Err(e) => Err(e),
        }
    }
}

/// The solver's form of a projection.
pub open spec fn lower_projection_ty(p: ty::ProjectionTyView, table: Seq<InternKey>) -> Result<solver::ProjectionTyView, ConversionError> {
    match lower_tys(p.parameters, table) {
        Ok(a) => Ok(
            solver::ProjectionTyView {
                associated_ty_id: solver::AssocTypeId(p.associated_ty.0),
                substitution: a,
            },
        ),
        Err(e) => Err(e),
    }
}

/// The analyzer's form of a projection.
pub open spec fn raise_projection_ty(p: solver::ProjectionTyView, table: Seq<InternKey>) -> Result<ty::ProjectionTyView, ConversionError> {
    match raise_args(p.substitution, table) {
        Ok(s) => Ok(
            ty::ProjectionTyView { associated_ty: TypeAliasId(p.associated_ty_id.0), parameters: s },
        ),
        Err(e) => Err(e),
    }
}

/// Projections.
impl ToChalk for ty::ProjectionTy {
    type Chalk = solver::ProjectionTy;

    open spec fn lowers_to(&self, table: Seq<InternKey>, r: Result<solver::ProjectionTy, ConversionError>) -> bool {
        &&& covers_tys(table, self@.parameters)
        &&& match r {
            Ok(x) => lower_projection_ty(self@, table) == Ok::<_, ConversionError>(x@),
            Err(e) => lower_projection_ty(self@, table) == Err::<solver::ProjectionTyView, _>(e),
        }
    }

    open spec fn registered(&self, table: Seq<InternKey>) -> Seq<InternKey> {
        reg_tys(self@.parameters, table)
    }

    open spec fn raised_from(chalk: &solver::ProjectionTy, table: Seq<InternKey>, r: Result<ty::ProjectionTy, ConversionError>) -> bool {
        match r {
            Ok(x) => raise_projection_ty(chalk@, table) == Ok::<_, ConversionError>(x@),
            Err(e) => raise_projection_ty(chalk@, table) == Err::<ty::ProjectionTyView, _>(e),
        }
    }

    fn to_chalk(&self, db: &mut InternTable) -> (r: Result<solver::ProjectionTy, ConversionError>) {
        match self.parameters.to_chalk(db) {
            Ok(substitution) => Ok(
                solver::ProjectionTy {
                    associated_ty_id: solver::AssocTypeId(self.associated_ty.0),
                    substitution,
                },
            ),
            Err(e) => Err(e),
        }
    }

    fn from_chalk(db: &InternTable, projection_ty: &solver::ProjectionTy) -> (r: Result<ty::ProjectionTy, ConversionError>) {
        match projection_ty.substitution.raise(db) {
            Ok(parameters) => Ok(
                ty::ProjectionTy {
                    associated_ty: TypeAliasId(projection_ty.associated_ty_id.0),
                    parameters,
                },
            ),
            Err(e) => Err(e),
        }
    }
}

/// The solver's form of a projection predicate: an alias equality. The
/// projection is converted before the type.
pub open spec fn lower_projection_pred(pp: ty::ProjectionPredicateView, table: Seq<InternKey>) -> Result<(solver::AliasTyView, solver::TyView), ConversionError> {
    match lower_projection_ty(pp.projection_ty, table) {
        Ok(p) => match lower_ty(pp.ty, table) {
            Ok(t) => Ok((solver::AliasTyView::Projection(p), t)),
            Err(e) => Err(e),
        },
        Err(e) => Err(e),
    }
}

/// The analyzer's form of an alias equality. Only projections have one.
pub open spec fn raise_alias_eq(eq: (solver::AliasTyView, solver::TyView), table: Seq<InternKey>) -> Result<ty::ProjectionPredicateView, ConversionError> {
    match eq.0 {
        solver::AliasTyView::Projection(p) => match raise_projection_ty(p, table) {
            Ok(p2) => match raise_ty(eq.1, table) {
                Ok(t) => Ok(ty::ProjectionPredicateView { projection_ty: p2, ty: t }),
                Err(e) => Err(e),
            },
            Err(e) => Err(e),
        },
        solver::AliasTyView::Opaque(_, _) => Err(ConversionError::UnsupportedOpaqueAlias),
    }
}

/// Projection predicates, as alias equalities.
impl ToChalk for ty::ProjectionPredicate {
    type Chalk = solver::AliasEq;

    open spec fn lowers_to(&self, table: Seq<InternKey>, r: Result<solver::AliasEq, ConversionError>) -> bool {
        &&& covers_tys(table, self@.projection_ty.parameters)
        &&& covers_ty(table, self@.ty)
        &&& match r {
            Ok(x) => lower_projection_pred(self@, table) == Ok::<_, ConversionError>(x@),
            Err(e) => lower_projection_pred(self@, table) == Err::<(solver::AliasTyView, solver::TyView), _>(e),
        }
    }

    open spec fn registered(&self, table: Seq<InternKey>) -> Seq<InternKey> {
        reg_ty(self@.ty, reg_tys(self@.projection_ty.parameters, table))
    }

    open spec fn raised_from(chalk: &solver::AliasEq, table: Seq<InternKey>, r: Result<ty::ProjectionPredicate, ConversionError>) -> bool {
        match r {
            Ok(x) => raise_alias_eq(chalk@, table) == Ok::<_, ConversionError>(x@),
            Err(e) => raise_alias_eq(chalk@, table) == Err::<ty::ProjectionPredicateView, _>(e),
        }
    }

    fn to_chalk(&self, db: &mut InternTable) -> (r: Result<solver::AliasEq, ConversionError>) {
        let ghost start = db@;
        register_tys(&self.projection_ty.parameters.0, db);
        let ghost mid = db@;
        self.ty.register(db);
        proof {
            lemma_extends_trans(start, mid, db@);
            lemma_covers_tys_grow(mid, db@, self@.projection_ty.parameters);
        }
        match self.projection_ty.parameters.lower(db) {
            Ok(substitution) => match self.ty.lower(db) {
                Ok(t) => Ok(
                    solver::AliasEq {
                        alias: solver::AliasTy::Projection(
                            solver::ProjectionTy {
                                associated_ty_id: solver::AssocTypeId(
                                    self.projection_ty.associated_ty.0,
                                ),
                                substitution,
                            },
                        ),
                        ty: t,
                    },
                ),
                Err(e) => Err(e),
            },
            Err(e) => Err(e),
        }
    }

    fn from_chalk(db: &InternTable, eq: &solver::AliasEq) -> (r: Result<ty::ProjectionPredicate, ConversionError>) {
        match &eq.alias {
            solver::AliasTy::Projection(p) => match p.substitution.raise(db) {
                Ok(parameters) => match eq.ty.raise(db) {
                    Ok(t) => Ok(
                        ty::ProjectionPredicate {
                            projection_ty: ty::ProjectionTy {
                                associated_ty: TypeAliasId(p.associated_ty_id.0),
                                parameters,
                            },
                            ty: t,
                        },
                    ),
                    Err(e) => Err(e),
                },
                Err(e) => Err(e),
            },
            solver::AliasTy::Opaque(_) => Err(ConversionError::UnsupportedOpaqueAlias),
        }
    }
}

/// Predicates, as quantified where-clauses.
impl ToChalk for ty::GenericPredicate {
    type Chalk = solver::QuantifiedWhereClause;

    open spec fn lowers_to(&self, table: Seq<InternKey>, r: Result<solver::QuantifiedWhereClause, ConversionError>) -> bool {
        &&& covers_pred(table, self@)
        &&& match r {
            Ok(x) => lower_pred(self@, table) == Ok::<_, ConversionError>(x@),
            Err(e) => lower_pred(self@, table) == Err::<solver::QuantifiedWhereClauseView, _>(e),
        }
    }

    open spec fn registered(&self, table: Seq<InternKey>) -> Seq<InternKey> {
        reg_pred(self@, table)
    }

    open spec fn raised_from(chalk: &solver::QuantifiedWhereClause, table: Seq<InternKey>, r: Result<ty::GenericPredicate, ConversionError>) -> bool {
        match r {
            Ok(x) => raise_clause(chalk@, table) == Ok::<_, ConversionError>(x@),
            Err(e) => raise_clause(chalk@, table) == Err::<ty::PredicateView, _>(e),
        }
    }

    fn to_chalk(&self, db: &mut InternTable) -> (r: Result<solver::QuantifiedWhereClause, ConversionError>) {
        self.register(db);
        self.lower(db)
    }

    fn from_chalk(db: &InternTable, where_clause: &solver::QuantifiedWhereClause) -> (r: Result<ty::GenericPredicate, ConversionError>) {
        where_clause.raise(db)
    }
}

/// The goal that an obligation asks for. Nothing is placed under a binder.
pub open spec fn lower_obligation(o: ty::ObligationView, table: Seq<InternKey>) -> Result<solver::DomainGoalView, ConversionError> {
    match o {
        ty::ObligationView::Trait(tr) => match lower_trait_ref(tr, table) {
            Ok(tr2) => Ok(solver::DomainGoalView::Holds(solver::WhereClauseView::Implemented(tr2))),
            Err(e) => Err(e),
        },
        ty::ObligationView::Projection(pp) => match lower_projection_pred(pp, table) {
            Ok(eq) => Ok(solver::DomainGoalView::Holds(solver::WhereClauseView::AliasEq(eq.0, eq.1))),
            Err(e) => Err(e),
        },
    }
}

/// The obligation that a goal stands for.
pub open spec fn raise_goal(g: solver::DomainGoalView, table: Seq<InternKey>) -> Result<ty::ObligationView, ConversionError> {
    match g {
        solver::DomainGoalView::Holds(solver::WhereClauseView::Implemented(tr)) => match raise_trait_ref(tr, table) {
            Ok(tr2) => Ok(ty::ObligationView::Trait(tr2)),
            Err(e) => Err(e),
        },
        solver::DomainGoalView::Holds(solver::WhereClauseView::AliasEq(a, t)) => match raise_alias_eq((a, t), table) {
            Ok(pp) => Ok(ty::ObligationView::Projection(pp)),
            Err(e) => Err(e),
        },
        solver::DomainGoalView::Holds(_) => Err(ConversionError::UnsupportedOutlives),
    }
}

/// Obligations, as goals.
impl ToChalk for ty::Obligation {
    type Chalk = solver::DomainGoal;

    open spec fn lowers_to(&self, table: Seq<InternKey>, r: Result<solver::DomainGoal, ConversionError>) -> bool {
        match r {
            Ok(x) => lower_obligation(self@, table) == Ok::<_, ConversionError>(x@),
            Err(e) => lower_obligation(self@, table) == Err::<solver::DomainGoalView, _>(e),
        }
    }

    open spec fn registered(&self, table: Seq<InternKey>) -> Seq<InternKey> {
        match self@ {
            ty::ObligationView::Trait(tr) => reg_tys(tr.substs, table),
            ty::ObligationView::Projection(pp) => reg_ty(
                pp.ty,
                reg_tys(pp.projection_ty.parameters, table),
            ),
        }
    }

    open spec fn raised_from(chalk: &solver::DomainGoal, table: Seq<InternKey>, r: Result<ty::Obligation, ConversionError>) -> bool {
        match r {
            Ok(x) => raise_goal(chalk@, table) == Ok::<_, ConversionError>(x@),
            Err(e) => raise_goal(chalk@, table) == Err::<ty::ObligationView, _>(e),
        }
    }

    fn to_chalk(&self, db: &mut InternTable) -> (r: Result<solver::DomainGoal, ConversionError>) {
        match self {
            ty::Obligation::Trait(tr) => match tr.to_chalk(db) {
                Ok(tr2) => Ok(solver::DomainGoal::Holds(solver::WhereClause::Implemented(tr2))),
                Err(e) => Err(e),
            },
            ty::Obligation::Projection(pr) => match pr.to_chalk(db) {
                Ok(eq) => Ok(solver::DomainGoal::Holds(solver::WhereClause::AliasEq(eq))),
                Err(e) => Err(e),
            },
        }
    }

    fn from_chalk(db: &InternTable, goal: &solver::DomainGoal) -> (r: Result<ty::Obligation, ConversionError>) {
        match goal {
            solver::DomainGoal::Holds(solver::WhereClause::Implemented(tr)) => match ty::TraitRef::from_chalk(db, tr) {
                Ok(tr2) => Ok(ty::Obligation::Trait(tr2)),
                Err(e) => Err(e),
            },
            solver::DomainGoal::Holds(solver::WhereClause::AliasEq(eq)) => match ty::ProjectionPredicate::from_chalk(db, eq) {
                Ok(pp) => Ok(ty::Obligation::Projection(pp)),
                Err(e) => Err(e),
            },
            solver::DomainGoal::Holds(_) => Err(ConversionError::UnsupportedOutlives),
        }
    }
}

/// Environments: error predicates are left out.
impl ToChalk for ty::TraitEnvironment {
    type Chalk = solver::Environment;

    open spec fn lowers_to(&self, table: Seq<InternKey>, r: Result<solver::Environment, ConversionError>) -> bool {
        &&& covers_preds(table, self@)
        &&& match r {
            Ok(x) => lower_bounds(self@, table) == Ok::<_, ConversionError>(x@),
            Err(e) => lower_bounds(self@, table) == Err::<Seq<solver::QuantifiedWhereClauseView>, _>(e),
        }
    }

    open spec fn registered(&self, table: Seq<InternKey>) -> Seq<InternKey> {
        reg_preds(self@, table)
    }

    open spec fn raised_from(chalk: &solver::Environment, table: Seq<InternKey>, r: Result<ty::TraitEnvironment, ConversionError>) -> bool {
        match r {
            Ok(x) => raise_clauses(chalk@, table) == Ok::<_, ConversionError>(x@),
            Err(e) => raise_clauses(chalk@, table) == Err::<Seq<ty::PredicateView>, _>(e),
        }
    }

    /// The clauses of the environment: one for each predicate that is no
    /// error predicate, in order.
    fn to_chalk(&self, db: &mut InternTable) -> (r: Result<solver::Environment, ConversionError>) {
        register_preds(&self.predicates, db);
        match lower_bound_vec(&self.predicates, db) {
            Ok(clauses) => Ok(solver::Environment { clauses }),
            Err(e) => Err(e),
        }
    }

    fn from_chalk(db: &InternTable, env: &solver::Environment) -> (r: Result<ty::TraitEnvironment, ConversionError>) {
        match raise_clause_vec(&env.clauses, db) {
            Ok(predicates) => Ok(ty::TraitEnvironment { predicates }),
            Err(e) => Err(e),
        }
    }
}

/// Values in an environment.
impl<T: ToChalk> ToChalk for ty::InEnvironment<T> {
    type Chalk = solver::InEnvironment<T::Chalk>;

    /// The environment decides first; the value is converted for the same
    /// table.
    open spec fn lowers_to(&self, table: Seq<InternKey>, r: Result<solver::InEnvironment<T::Chalk>, ConversionError>) -> bool {
        &&& covers_preds(table, self.environment@)
        &&& match lower_bounds(self.environment@, table) {
            Ok(clauses) => match r {
                Ok(x) => x.environment@ == clauses && self.value.lowers_to(table, Ok(x.goal)),
                Err(e) => self.value.lowers_to(table, Err(e)),
            },
            Err(e) => r matches Err(e2) && e2 == e,
        }
    }

    open spec fn registered(&self, table: Seq<InternKey>) -> Seq<InternKey> {
        self.value.registered(reg_preds(self.environment@, table))
    }

    open spec fn raised_from(chalk: &solver::InEnvironment<T::Chalk>, table: Seq<InternKey>, r: Result<ty::InEnvironment<T>, ConversionError>) -> bool {
        match raise_clauses(chalk.environment@, table) {
            Ok(preds) => match r {
                Ok(x) => x.environment@ == preds && T::raised_from(&chalk.goal, table, Ok(x.value)),
                Err(e) => T::raised_from(&chalk.goal, table, Err(e)),
            },
            Err(e) => r matches Err(e2) && e2 == e,
        }
    }

    fn to_chalk(&self, db: &mut InternTable) -> (r: Result<solver::InEnvironment<T::Chalk>, ConversionError>) {
        let ghost start = db@;
        register_preds(&self.environment.predicates, db);
        let ghost mid = db@;
        let goal = self.value.to_chalk(db);
        proof {
            lemma_extends_trans(start, mid, db@);
            lemma_covers_preds_grow(mid, db@, self.environment@);
        }
        match lower_bound_vec(&self.environment.predicates, db) {
            Ok(clauses) => match goal {
                Ok(goal) => Ok(
                    solver::InEnvironment { environment: solver::Environment { clauses }, goal },
                ),
                Err(e) => Err(e),
            },
            Err(e) => Err(e),
        }
    }

    fn from_chalk(db: &InternTable, in_env: &solver::InEnvironment<T::Chalk>) -> (r: Result<ty::InEnvironment<T>, ConversionError>) {
        match raise_clause_vec(&in_env.environment.clauses, db) {
            Ok(predicates) => match T::from_chalk(db, &in_env.goal) {
                Ok(value) => Ok(
                    ty::InEnvironment { environment: ty::TraitEnvironment { predicates }, value },
                ),
                Err(e) => Err(e),
            },
            Err(e) => Err(e),
        }
    }
}

/// The binders of a canonical form: each kind as a type variable of the
/// root universe.
pub open spec fn lower_kinds(kinds: Seq<TyVariableKind>) -> Seq<solver::CanonicalVarKind> {
    Seq::new(
        kinds.len(),
        |i: int|
            solver::CanonicalVarKind {
                kind: solver::VariableKind::Ty(kinds[i]),
                universe: spec_root_universe(),
            },
    )
}

/// The kind that a binder of the solver stands for. A lifetime keeps its
/// place as a general type variable, so that the indices of the others
/// stay; a constant has no place.
pub open spec fn raise_kind(k: solver::CanonicalVarKind) -> Result<TyVariableKind, ConversionError> {
    match k.kind {
        solver::VariableKind::Ty(tk) => Ok(tk),
        solver::VariableKind::Lifetime => Ok(TyVariableKind::General),
        solver::VariableKind::Const => Err(ConversionError::UnsupportedConstKind),
    }
}

/// What each binder of a canonical form stands for.
pub open spec fn raise_each_kind(binders: Seq<solver::CanonicalVarKind>) -> Seq<Result<TyVariableKind, ConversionError>> {
    Seq::new(binders.len(), |i: int| raise_kind(binders[i]))
}

/// The kinds that the binders of a canonical form stand for.
pub open spec fn raise_kinds(binders: Seq<solver::CanonicalVarKind>) -> Result<Seq<TyVariableKind>, ConversionError> {
    collect(raise_each_kind(binders))
}

/// The executable counterpart of [`lower_kinds`].
pub fn lower_kind_vec(kinds: &Vec<TyVariableKind>) -> (r: Vec<solver::CanonicalVarKind>)
    ensures
        r@ == lower_kinds(kinds@),
{
    let mut out: Vec<solver::CanonicalVarKind> = Vec::new();
    let mut i: usize = 0;
    while i < kinds.len()
        invariant
            i <= kinds.len(),
            out.len() == i,
            forall|j: int| 0 <= j < i ==> out@[j] == lower_kinds(kinds@)[j],
        decreases kinds.len() - i,
    {
        out.push(
            solver::CanonicalVarKind {
                kind: solver::VariableKind::Ty(kinds[i]),
                universe: root_universe(),
            },
        );
        i += 1;
    }
    assert(out@ =~= lower_kinds(kinds@));
    out
}

/// The executable counterpart of [`raise_kinds`].
pub fn raise_kind_vec(binders: &Vec<solver::CanonicalVarKind>) -> (r: Result<Vec<TyVariableKind>, ConversionError>)
    ensures
        match r {
            Ok(v) => raise_kinds(binders@) == Ok::<_, ConversionError>(v@),
            Err(e) => raise_kinds(binders@) == Err::<Seq<TyVariableKind>, _>(e),
        },
{
    let ghost rs = raise_each_kind(binders@);
    let mut out: Vec<TyVariableKind> = Vec::new();
    let mut i: usize = 0;
    while i < binders.len()
        invariant
            i <= binders.len(),
            out.len() == i,
            rs == raise_each_kind(binders@),
            forall|j: int| 0 <= j < i ==> (#[trigger] rs[j]) == Ok::<_, ConversionError>(out@[j]),
        decreases binders.len() - i,
    {
        match binders[i].kind {
            solver::VariableKind::Ty(tk) => out.push(tk),
            solver::VariableKind::Lifetime => out.push(TyVariableKind::General),
            solver::VariableKind::Const => {
                proof {
                    assert(rs[i as int] is Err);
                    lemma_collect_err(rs, i as int);
                }
                return Err(ConversionError::UnsupportedConstKind);
            },
        }
        i += 1;
    }
    proof {
        lemma_collect_ok(rs);
        assert(collect(rs)->Ok_0 =~= out@);
    }
    Ok(out)
}

/// Canonical forms.
impl<T: ToChalk> ToChalk for ty::Canonical<T> {
    type Chalk = solver::Canonical<T::Chalk>;

    open spec fn lowers_to(&self, table: Seq<InternKey>, r: Result<solver::Canonical<T::Chalk>, ConversionError>) -> bool {
        match r {
            Ok(c) => c.binders@ == lower_kinds(self.kinds@) && self.value.lowers_to(
                table,
                Ok(c.value),
            ),
            Err(e) => self.value.lowers_to(table, Err(e)),
        }
    }

    open spec fn registered(&self, table: Seq<InternKey>) -> Seq<InternKey> {
        self.value.registered(table)
    }

    /// The kinds decide first.
    open spec fn raised_from(chalk: &solver::Canonical<T::Chalk>, table: Seq<InternKey>, r: Result<ty::Canonical<T>, ConversionError>) -> bool {
        match raise_kinds(chalk.binders@) {
            Ok(kinds) => match r {
                Ok(c) => c.kinds@ == kinds && T::raised_from(&chalk.value, table, Ok(c.value)),
                Err(e) => T::raised_from(&chalk.value, table, Err(e)),
            },
            Err(e) => r matches Err(e2) && e2 == e,
        }
    }

    fn to_chalk(&self, db: &mut InternTable) -> (r: Result<solver::Canonical<T::Chalk>, ConversionError>) {
        match self.value.to_chalk(db) {
            Ok(value) => Ok(solver::Canonical { value, binders: lower_kind_vec(&self.kinds) }),
            Err(e) => Err(e),
        }
    }

    fn from_chalk(db: &InternTable, canonical: &solver::Canonical<T::Chalk>) -> (r: Result<ty::Canonical<T>, ConversionError>) {
        match raise_kind_vec(&canonical.binders) {
            Ok(kinds) => match T::from_chalk(db, &canonical.value) {
                Ok(value) => Ok(ty::Canonical { kinds, value }),
                Err(e) => Err(e),
            },
            Err(e) => Err(e),
        }
    }
}

/// Traits keep their number.
impl ToChalk for TraitId {
    type Chalk = solver::TraitId;

    open spec fn lowers_to(&self, table: Seq<InternKey>, r: Result<solver::TraitId, ConversionError>) -> bool {
        r == Ok::<_, ConversionError>(solver::TraitId(self.0))
    }

    open spec fn registered(&self, table: Seq<InternKey>) -> Seq<InternKey> {
        table
    }

    open spec fn raised_from(chalk: &solver::TraitId, table: Seq<InternKey>, r: Result<TraitId, ConversionError>) -> bool {
        r == Ok::<_, ConversionError>(TraitId(chalk.0))
    }

    fn to_chalk(&self, _db: &mut InternTable) -> (r: Result<solver::TraitId, ConversionError>) {
        Ok(solver::TraitId(self.0))
    }

    fn from_chalk(_db: &InternTable, trait_id: &solver::TraitId) -> (r: Result<TraitId, ConversionError>) {
        Ok(TraitId(trait_id.0))
    }
}

/// Implementations keep their number.
impl ToChalk for ImplId {
    type Chalk = solver::ImplId;

    open spec fn lowers_to(&self, table: Seq<InternKey>, r: Result<solver::ImplId, ConversionError>) -> bool {
        r == Ok::<_, ConversionError>(solver::ImplId(self.0))
    }

    open spec fn registered(&self, table: Seq<InternKey>) -> Seq<InternKey> {
        table
    }

    open spec fn raised_from(chalk: &solver::ImplId, table: Seq<InternKey>, r: Result<ImplId, ConversionError>) -> bool {
        r == Ok::<_, ConversionError>(ImplId(chalk.0))
    }

    fn to_chalk(&self, _db: &mut InternTable) -> (r: Result<solver::ImplId, ConversionError>) {
        Ok(solver::ImplId(self.0))
    }

    fn from_chalk(_db: &InternTable, impl_id: &solver::ImplId) -> (r: Result<ImplId, ConversionError>) {
        Ok(ImplId(impl_id.0))
    }
}

/// Algebraic data types are named on the solver's side as they are
/// here.
impl ToChalk for AdtId {
    type Chalk = solver::AdtId;

    open spec fn lowers_to(&self, table: Seq<InternKey>, r: Result<solver::AdtId, ConversionError>) -> bool {
        r == Ok::<_, ConversionError>(solver::AdtId(*self))
    }

    open spec fn registered(&self, table: Seq<InternKey>) -> Seq<InternKey> {
        table
    }

    open spec fn raised_from(chalk: &solver::AdtId, table: Seq<InternKey>, r: Result<AdtId, ConversionError>) -> bool {
        r == Ok::<_, ConversionError>(chalk.0)
    }

    fn to_chalk(&self, _db: &mut InternTable) -> (r: Result<solver::AdtId, ConversionError>) {
        Ok(solver::AdtId(*self))
    }

    fn from_chalk(_db: &InternTable, id: &solver::AdtId) -> (r: Result<AdtId, ConversionError>) {
        Ok(id.0)
    }
}

/// Opaque types get their handle from the table.
impl ToChalk for OpaqueTyId {
    type Chalk = solver::OpaqueTyId;

    open spec fn lowers_to(&self, table: Seq<InternKey>, r: Result<solver::OpaqueTyId, ConversionError>) -> bool {
        &&& table.contains(InternKey::ImplTrait(*self))
        &&& r == Ok::<_, ConversionError>(
            solver::OpaqueTyId(handle_in(table, InternKey::ImplTrait(*self))),
        )
    }

    open spec fn registered(&self, table: Seq<InternKey>) -> Seq<InternKey> {
        reg_key(table, InternKey::ImplTrait(*self))
    }

    open spec fn raised_from(chalk: &solver::OpaqueTyId, table: Seq<InternKey>, r: Result<OpaqueTyId, ConversionError>) -> bool {
        r == (match key_at(table, chalk.0) {
            Some(InternKey::ImplTrait(id)) => Ok::<_, ConversionError>(id),
            _ => Err(ConversionError::UnknownHandle),
        })
    }

    fn to_chalk(&self, db: &mut InternTable) -> (r: Result<solver::OpaqueTyId, ConversionError>) {
        let h = db.intern(InternKey::ImplTrait(*self));
        let n = db.len();
        proof {
            lemma_handle_of_position(db@, h as int);
        }
        Ok(solver::OpaqueTyId(h))
    }

    fn from_chalk(db: &InternTable, opaque_ty_id: &solver::OpaqueTyId) -> (r: Result<OpaqueTyId, ConversionError>) {
        match db.lookup(opaque_ty_id.0) {
            Some(InternKey::ImplTrait(id)) => Ok(id),
            _ => Err(ConversionError::UnknownHandle),
        }
    }
}

/// Callable definitions get their handle from the table.
impl ToChalk for CallableDefId {
    type Chalk = solver::FnDefId;

    open spec fn lowers_to(&self, table: Seq<InternKey>, r: Result<solver::FnDefId, ConversionError>) -> bool {
        &&& table.contains(InternKey::Callable(*self))
        &&& r == Ok::<_, ConversionError>(
            solver::FnDefId(handle_in(table, InternKey::Callable(*self))),
        )
    }

    open spec fn registered(&self, table: Seq<InternKey>) -> Seq<InternKey> {
        reg_key(table, InternKey::Callable(*self))
    }

    open spec fn raised_from(chalk: &solver::FnDefId, table: Seq<InternKey>, r: Result<CallableDefId, ConversionError>) -> bool {
        r == (match key_at(table, chalk.0) {
            Some(InternKey::Callable(id)) => Ok::<_, ConversionError>(id),
            _ => Err(ConversionError::UnknownHandle),
        })
    }

    fn to_chalk(&self, db: &mut InternTable) -> (r: Result<solver::FnDefId, ConversionError>) {
        let h = db.intern(InternKey::Callable(*self));
        let n = db.len();
        proof {
            lemma_handle_of_position(db@, h as int);
        }
        Ok(solver::FnDefId(h))
    }

    fn from_chalk(db: &InternTable, fn_def_id: &solver::FnDefId) -> (r: Result<CallableDefId, ConversionError>) {
        match db.lookup(fn_def_id.0) {
            Some(InternKey::Callable(id)) => Ok(id),
            _ => Err(ConversionError::UnknownHandle),
        }
    }
}

/// A type alias in its role as an associated type.
#[derive(Clone, Copy, Debug, PartialEq, Eq, Structural)]
pub struct TypeAliasAsAssocType(pub TypeAliasId);

impl ToChalk for TypeAliasAsAssocType {
    type Chalk = solver::AssocTypeId;

    open spec fn lowers_to(&self, table: Seq<InternKey>, r: Result<solver::AssocTypeId, ConversionError>) -> bool {
        r == Ok::<_, ConversionError>(solver::AssocTypeId(self.0.0))
    }

    open spec fn registered(&self, table: Seq<InternKey>) -> Seq<InternKey> {
        table
    }

    open spec fn raised_from(chalk: &solver::AssocTypeId, table: Seq<InternKey>, r: Result<TypeAliasAsAssocType, ConversionError>) -> bool {
        r == Ok::<_, ConversionError>(TypeAliasAsAssocType(TypeAliasId(chalk.0)))
    }

    fn to_chalk(&self, _db: &mut InternTable) -> (r: Result<solver::AssocTypeId, ConversionError>) {
        Ok(solver::AssocTypeId(self.0.0))
    }

    fn from_chalk(_db: &InternTable, assoc_type_id: &solver::AssocTypeId) -> (r: Result<TypeAliasAsAssocType, ConversionError>) {
        Ok(TypeAliasAsAssocType(TypeAliasId(assoc_type_id.0)))
    }
}

/// A type alias in its role as a foreign type.
#[derive(Clone, Copy, Debug, PartialEq, Eq, Structural)]
pub struct TypeAliasAsForeignType(pub TypeAliasId);

impl ToChalk for TypeAliasAsForeignType {
    type Chalk = solver::ForeignDefId;

    open spec fn lowers_to(&self, table: Seq<InternKey>, r: Result<solver::ForeignDefId, ConversionError>) -> bool {
        r == Ok::<_, ConversionError>(solver::ForeignDefId(self.0.0))
    }

    open spec fn registered(&self, table: Seq<InternKey>) -> Seq<InternKey> {
        table
    }

    open spec fn raised_from(chalk: &solver::ForeignDefId, table: Seq<InternKey>, r: Result<TypeAliasAsForeignType, ConversionError>) -> bool {
        r == Ok::<_, ConversionError>(TypeAliasAsForeignType(TypeAliasId(chalk.0)))
    }

    fn to_chalk(&self, _db: &mut InternTable) -> (r: Result<solver::ForeignDefId, ConversionError>) {
        Ok(solver::ForeignDefId(self.0.0))
    }

    fn from_chalk(_db: &InternTable, foreign_def_id: &solver::ForeignDefId) -> (r: Result<TypeAliasAsForeignType, ConversionError>) {
        Ok(TypeAliasAsForeignType(TypeAliasId(foreign_def_id.0)))
    }
}

/// A type alias in its role as the value of an associated type in an
/// implementation.
#[derive(Clone, Copy, Debug, PartialEq, Eq, Structural)]
pub struct TypeAliasAsValue(pub TypeAliasId);

impl ToChalk for TypeAliasAsValue {
    type Chalk = solver::AssociatedTyValueId;

    open spec fn lowers_to(&self, table: Seq<InternKey>, r: Result<solver::AssociatedTyValueId, ConversionError>) -> bool {
        r == Ok::<_, ConversionError>(solver::AssociatedTyValueId(self.0.0))
    }

    open spec fn registered(&self, table: Seq<InternKey>) -> Seq<InternKey> {
        table
    }

    open spec fn raised_from(chalk: &solver::AssociatedTyValueId, table: Seq<InternKey>, r: Result<TypeAliasAsValue, ConversionError>) -> bool {
        r == Ok::<_, ConversionError>(TypeAliasAsValue(TypeAliasId(chalk.0)))
    }

    fn to_chalk(&self, _db: &mut InternTable) -> (r: Result<solver::AssociatedTyValueId, ConversionError>) {
        Ok(solver::AssociatedTyValueId(self.0.0))
    }

    fn from_chalk(_db: &InternTable, assoc_ty_value_id: &solver::AssociatedTyValueId) -> (r: Result<TypeAliasAsValue, ConversionError>) {
        Ok(TypeAliasAsValue(TypeAliasId(assoc_ty_value_id.0)))
    }
}

} // verus!
