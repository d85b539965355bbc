//! Where-clauses of a definition, as the solver wants them.
use vstd::prelude::*;
use crate::error::ConversionError;
use crate::ids::InternKey;
use crate::intern::{InternTable, extends};
use crate::lower::{lower_bound_vec, lower_bounds, reg_preds, register_preds};
use crate::solver;
use crate::subst::{RewriteView, rewrite_pred};
use crate::ty::{GenericPredicate, PredicateView, Substs, preds_view};

verus! {

/// The predicates of `preds` that are no error predicates, in order, with
/// the variables of the outermost binder replaced by the types of
/// `substs`; nothing when one of them cannot be substituted.
pub open spec fn substituted(preds: Seq<PredicateView>, substs: Seq<crate::ty::TyView>) -> Option<Seq<PredicateView>>
    decreases preds.len(),
{
    if preds.len() == 0 {
        Some(Seq::empty())
    } else {
        match substituted(preds.drop_last(), substs) {
            Some(acc) => if preds.last() is Error {
                Some(acc)
            } else {
                match rewrite_pred(preds.last(), RewriteView::Subst(substs), 0) {
                    Some(p) => Some(acc.push(p)),
                    None => None,
                }
            },
            None => None,
        }
    }
}

/// The where-clauses that the declared predicates `preds` give under
/// `substs`: error predicates are dropped, the others are substituted and
/// converted, in the order of their declaration. A predicate that cannot
/// be substituted decides before any conversion.
pub open spec fn where_clauses(
    preds: Seq<PredicateView>,
    substs: Seq<crate::ty::TyView>,
    table: Seq<InternKey>,
) -> Result<Seq<solver::QuantifiedWhereClauseView>, ConversionError> {
    match substituted(preds, substs) {
        Some(ps) => lower_bounds(ps, table),
        None => Err(ConversionError::IndexOutOfRange),
    }
}

/// The table after the where-clauses were converted: the identities of the
/// substituted predicates were given handles. When a predicate cannot be
/// substituted the table is unchanged.
pub open spec fn where_clauses_table(
    preds: Seq<PredicateView>,
    substs: Seq<crate::ty::TyView>,
    table: Seq<InternKey>,
) -> Seq<InternKey> {
    match substituted(preds, substs) {
        Some(ps) => reg_preds(ps, table),
        None => table,
    }
}

/// When the first predicates cannot be substituted, the list cannot.
pub proof fn lemma_substituted_prefix_none(preds: Seq<PredicateView>, k: int, substs: Seq<crate::ty::TyView>)
    requires
        0 <= k <= preds.len(),
        substituted(preds.take(k), substs) is None,
    ensures
        substituted(preds, substs) is None,
    decreases preds.len(),
{
    if k == preds.len() {
        assert(preds.take(k) =~= preds);
    } else {
        assert(preds.drop_last().take(k) =~= preds.take(k));
        lemma_substituted_prefix_none(preds.drop_last(), k, substs);
    }
}

/// The number of predicates that are no error predicates.
pub open spec fn valid_count(preds: Seq<PredicateView>) -> nat
    decreases preds.len(),
{
    if preds.len() == 0 {
        0
    } else if preds.last() is Error {
        valid_count(preds.drop_last())
    } else {
        valid_count(preds.drop_last()) + 1
    }
}

/// Environment filtering: the clauses of an environment are as many as its
/// predicates that are no error predicates.
pub proof fn lemma_environment_size(preds: Seq<PredicateView>, table: Seq<InternKey>)
    requires
        lower_bounds(preds, table) is Ok,
    ensures
        lower_bounds(preds, table)->Ok_0.len() == valid_count(preds),
    decreases preds.len(),
{
    if preds.len() > 0 {
        lemma_environment_size(preds.drop_last(), table);
    }
}

/// An environment of error predicates has no clause.
pub proof fn lemma_errors_give_no_clause(preds: Seq<PredicateView>, table: Seq<InternKey>)
    requires
        forall|i: int| 0 <= i < preds.len() ==> (#[trigger] preds[i]) is Error,
    ensures
        lower_bounds(preds, table) == Ok::<_, ConversionError>(
            Seq::<solver::QuantifiedWhereClauseView>::empty(),
        ),
    decreases preds.len(),
{
    if preds.len() > 0 {
        assert forall|i: int| 0 <= i < preds.drop_last().len() implies (
        #[trigger] preds.drop_last()[i]) is Error by {
            assert(preds.drop_last()[i] == preds[i]);
        }
        lemma_errors_give_no_clause(preds.drop_last(), table);
        assert(preds[preds.len() - 1] is Error);
    }
}

/// The where-clauses of a definition for the solver: `generic_predicates`
/// are its declared predicates, `substs` the types that stand for its
/// parameters. Error predicates are skipped; the order of declaration is
/// kept.
pub fn convert_where_clauses(
    db: &mut InternTable,
    generic_predicates: &Vec<GenericPredicate>,
    substs: &Substs,
) -> (r: Result<Vec<solver::QuantifiedWhereClause>, ConversionError>)
    requires
        old(db).wf(),
    ensures
        final(db).wf(),
        final(db)@ == where_clauses_table(preds_view(generic_predicates@), substs@, old(db)@),
        extends(final(db)@, old(db)@),
        match r {
            Ok(v) => where_clauses(preds_view(generic_predicates@), substs@, final(db)@) == Ok::<_, ConversionError>(
                solver::clauses_view(v@),
            ),
            Err(e) => where_clauses(preds_view(generic_predicates@), substs@, final(db)@) == Err::<Seq<solver::QuantifiedWhereClauseView>, _>(e),
        },
{
    let ghost s = preds_view(generic_predicates@);
    let mut result: Vec<GenericPredicate> = Vec::new();
    let mut i: usize = 0;
    assert(s.take(0) =~= Seq::empty());
    assert(preds_view(result@) =~= Seq::empty());
    while i < generic_predicates.len()
        invariant
            i <= generic_predicates.len(),
            s == preds_view(generic_predicates@),
            db.wf(),
            db@ == old(db)@,
            substituted(s.take(i as int), substs@) == Some(preds_view(result@)),
        decreases generic_predicates.len() - i,
    {
        let ghost prev = preds_view(result@);
        proof {
            assert(s.take(i + 1).drop_last() =~= s.take(i as int));
            assert(s.take(i + 1).last() == s[i as int]);
        }
        if !generic_predicates[i].is_error() {
            match generic_predicates[i].subst(substs) {
                Some(p) => {
                    result.push(p);
                    assert(preds_view(result@) =~= prev.push(p@));
                },
                None => {
                    proof {
                        assert(substituted(s.take(i + 1), substs@) is None);
                        lemma_substituted_prefix_none(s, i + 1, substs@);
                    }
                    return Err(ConversionError::IndexOutOfRange);
                },
            }
        }
        i += 1;
    }
    assert(s.take(generic_predicates.len() as int) =~= s);
    register_preds(&result, db);
    lower_bound_vec(&result, db)
}

} // verus!
