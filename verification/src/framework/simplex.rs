//! The decisions of a Nelder–Mead iteration.
//!
//! An iteration reflects the worst vertex through the centroid of the
//! others, and the reflected point's cost decides what to try next: accept
//! it, push further (expansion), pull back (outside or inside contraction),
//! or give up and shrink the whole simplex toward the best vertex. The
//! points themselves are floating-point arithmetic; the decisions are
//! exact comparisons of costs, made here with the IEEE-754 comparisons of
//! [`FloatBits`].

use vstd::prelude::*;

use crate::framework::float::FloatBits;

verus! {

/// What the reflected point's cost calls for.
#[derive(Debug, Clone, Copy, PartialEq, Eq, Structural)]
pub enum SimplexMove {
    /// `f_best ≤ f_r < f_next_worst`: take the reflected point.
    Reflect,
    /// `f_r < f_best`: try the expanded point.
    Expand,
    /// `f_next_worst ≤ f_r < f_worst`: try the outside contraction.
    ContractOutside,
    /// Otherwise (including a NaN `f_r`): try the inside contraction.
    ContractInside,
}

/// Which point takes the worst vertex's place, if any.
#[derive(Debug, Clone, Copy, PartialEq, Eq, Structural)]
pub enum SimplexReplacement {
    /// The reflected point.
    Reflected,
    /// The trial point of the move (expanded or contracted).
    Trial,
    /// None: shrink every vertex toward the best one.
    Shrink,
}

/// The move that the costs of the best, next-to-worst and worst vertices
/// and of the reflected point call for (Lagarias et al., 1998).
pub open spec fn simplex_move_spec(
    f_best: FloatBits,
    f_next_worst: FloatBits,
    f_worst: FloatBits,
    f_reflected: FloatBits,
) -> SimplexMove {
    if f_best.le_spec(f_reflected) && f_reflected.lt_spec(f_next_worst) {
        SimplexMove::Reflect
    } else if f_reflected.lt_spec(f_best) {
        SimplexMove::Expand
    } else if f_reflected.lt_spec(f_worst) {
        SimplexMove::ContractOutside
    } else {
        SimplexMove::ContractInside
    }
}

/// Which point replaces the worst vertex after `mv`, given the cost of the
/// reflected point and of the move's trial point. An expansion keeps the
/// expanded point only when it beats the reflected one; an outside
/// contraction is kept when it is no worse than the reflected point, an
/// inside contraction when it beats the worst vertex; a contraction that
/// fails calls for a shrink.
pub open spec fn simplex_replacement_spec(
    mv: SimplexMove,
    f_worst: FloatBits,
    f_reflected: FloatBits,
    f_trial: FloatBits,
) -> SimplexReplacement {
    match mv {
        SimplexMove::Reflect => SimplexReplacement::Reflected,
        SimplexMove::Expand => if f_trial.lt_spec(f_reflected) {
            SimplexReplacement::Trial
        } else {
            SimplexReplacement::Reflected
        },
        SimplexMove::ContractOutside => if f_trial.le_spec(f_reflected) {
            SimplexReplacement::Trial
        } else {
            SimplexReplacement::Shrink
        },
        SimplexMove::ContractInside => if f_trial.lt_spec(f_worst) {
            SimplexReplacement::Trial
        } else {
            SimplexReplacement::Shrink
        },
    }
}

/// The move of [`simplex_move_spec`].
pub fn simplex_move(
    f_best: FloatBits,
    f_next_worst: FloatBits,
    f_worst: FloatBits,
    f_reflected: FloatBits,
) -> (r: SimplexMove)
    ensures
        r == simplex_move_spec(f_best, f_next_worst, f_worst, f_reflected),
{
    if f_best.le(&f_reflected) && f_reflected.lt(&f_next_worst) {
        SimplexMove::Reflect
    } else if f_reflected.lt(&f_best) {
        SimplexMove::Expand
    } else if f_reflected.lt(&f_worst) {
        SimplexMove::ContractOutside
    } else {
        SimplexMove::ContractInside
    }
}

/// The replacement of [`simplex_replacement_spec`]. For
/// [`SimplexMove::Reflect`] there is no trial point and `f_trial` is not
/// looked at.
pub fn simplex_replacement(
    mv: SimplexMove,
    f_worst: FloatBits,
    f_reflected: FloatBits,
    f_trial: FloatBits,
) -> (r: SimplexReplacement)
    ensures
        r == simplex_replacement_spec(mv, f_worst, f_reflected, f_trial),
{
    match mv {
        SimplexMove::Reflect => SimplexReplacement::Reflected,
        SimplexMove::Expand => if f_trial.lt(&f_reflected) {
            SimplexReplacement::Trial
        } else {
            SimplexReplacement::Reflected
        },
        SimplexMove::ContractOutside => if f_trial.le(&f_reflected) {
            SimplexReplacement::Trial
        } else {
            SimplexReplacement::Shrink
        },
        SimplexMove::ContractInside => if f_trial.lt(&f_worst) {
            SimplexReplacement::Trial
        } else {
            SimplexReplacement::Shrink
        },
    }
}

/// A NaN reflected cost is never taken: it always leads to the inside
/// contraction.
pub proof fn lemma_nan_reflection_contracts_inside(
    f_best: FloatBits,
    f_next_worst: FloatBits,
    f_worst: FloatBits,
    f_reflected: FloatBits,
)
    requires
        f_reflected.is_nan_spec(),
    ensures
        simplex_move_spec(f_best, f_next_worst, f_worst, f_reflected)
            == SimplexMove::ContractInside,
{
}

/// The Nelder–Mead descent property: on a simplex whose vertices are sorted
/// by cost rank, a point that replaces the worst vertex ranks strictly
/// below it. So an iteration either strictly improves the worst vertex or
/// shrinks the simplex.
pub proof fn lemma_replacement_beats_worst(
    f_best: FloatBits,
    f_next_worst: FloatBits,
    f_worst: FloatBits,
    f_reflected: FloatBits,
    f_trial: FloatBits,
)
    requires
        f_best.rank_spec() <= f_next_worst.rank_spec(),
        f_next_worst.rank_spec() <= f_worst.rank_spec(),
    ensures
        ({
            let mv = simplex_move_spec(f_best, f_next_worst, f_worst, f_reflected);
            match simplex_replacement_spec(mv, f_worst, f_reflected, f_trial) {
                SimplexReplacement::Reflected => f_reflected.rank_spec() < f_worst.rank_spec(),
                SimplexReplacement::Trial => f_trial.rank_spec() < f_worst.rank_spec(),
                SimplexReplacement::Shrink => true,
            }
        }),
{
}

/// A reflected point better than the best vertex is always worth an
/// expansion: whenever the reflected cost is below the best cost in the
/// IEEE order (whatever the signs), the move is [`SimplexMove::Expand`],
/// and an expansion is tried only then.
pub proof fn lemma_expand_exactly_below_best(
    f_best: FloatBits,
    f_next_worst: FloatBits,
    f_worst: FloatBits,
    f_reflected: FloatBits,
)
    ensures
        f_reflected.lt_spec(f_best) <==> simplex_move_spec(
            f_best,
            f_next_worst,
            f_worst,
            f_reflected,
        ) == SimplexMove::Expand,
{
}

/// On a simplex sorted by cost (`f_best ≤ f_next_worst ≤ f_worst`, no NaN)
/// and a non-NaN reflected cost, the move is fixed by the interval the
/// reflected cost falls in: below the best, expand; from the best up to
/// below the next-to-worst, take the reflection; from the next-to-worst up
/// to below the worst, contract outside; from the worst up, contract
/// inside. A NaN reflected cost always contracts inside.
pub proof fn lemma_move_by_interval(
    f_best: FloatBits,
    f_next_worst: FloatBits,
    f_worst: FloatBits,
    f_reflected: FloatBits,
)
    requires
        f_best.le_spec(f_next_worst),
        f_next_worst.le_spec(f_worst),
    ensures
        !f_reflected.is_nan_spec() ==> {
            let mv = simplex_move_spec(f_best, f_next_worst, f_worst, f_reflected);
            &&& (mv == SimplexMove::Expand <==> f_reflected.lt_spec(f_best))
            &&& (mv == SimplexMove::Reflect <==> f_best.le_spec(f_reflected)
                && f_reflected.lt_spec(f_next_worst))
            &&& (mv == SimplexMove::ContractOutside <==> f_next_worst.le_spec(f_reflected)
                && f_reflected.lt_spec(f_worst))
            &&& (mv == SimplexMove::ContractInside <==> f_worst.le_spec(f_reflected))
        },
        f_reflected.is_nan_spec() ==> simplex_move_spec(f_best, f_next_worst, f_worst, f_reflected)
            == SimplexMove::ContractInside,
{
}

/// Which point replaces the worst vertex, as the comparison each move's
/// acceptance is: an accepted reflection keeps the reflected point; an
/// expansion keeps the expanded point exactly when its cost is below the
/// reflected cost (else the reflected point); an outside contraction is
/// kept exactly when its cost is at most the reflected cost, an inside
/// contraction exactly when its cost is below the worst cost; a
/// contraction that is not kept calls for a shrink, and nothing else does.
pub proof fn lemma_replacement_acceptance(
    f_worst: FloatBits,
    f_reflected: FloatBits,
    f_trial: FloatBits,
)
    ensures
        simplex_replacement_spec(SimplexMove::Reflect, f_worst, f_reflected, f_trial)
            == SimplexReplacement::Reflected,
        simplex_replacement_spec(SimplexMove::Expand, f_worst, f_reflected, f_trial)
            == SimplexReplacement::Trial <==> f_trial.lt_spec(f_reflected),
        simplex_replacement_spec(SimplexMove::Expand, f_worst, f_reflected, f_trial)
            != SimplexReplacement::Shrink,
        simplex_replacement_spec(SimplexMove::ContractOutside, f_worst, f_reflected, f_trial)
            == SimplexReplacement::Trial <==> f_trial.le_spec(f_reflected),
        simplex_replacement_spec(SimplexMove::ContractOutside, f_worst, f_reflected, f_trial)
            != SimplexReplacement::Reflected,
        simplex_replacement_spec(SimplexMove::ContractInside, f_worst, f_reflected, f_trial)
            == SimplexReplacement::Trial <==> f_trial.lt_spec(f_worst),
        simplex_replacement_spec(SimplexMove::ContractInside, f_worst, f_reflected, f_trial)
            != SimplexReplacement::Reflected,
{
}

} // verus!
