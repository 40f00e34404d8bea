//! The rules of motion: the wrap around the field and the player's drive.
//!
//! The field is a torus: what leaves it on one side comes back on the other.
//! The wrap is taken one step at a time, not as a remainder. A coordinate
//! that lies further out than one field is still outside after the step.
//!
//! The library does not hold the numbers themselves. The caller says how to
//! compare two coordinates and how to move one by a length, how a velocity
//! is pushed, capped and slowed, and the functions here decide when which
//! of them is done.

use vstd::prelude::*;

verus! {

/// `lifted` is what the first half of the wrap makes of `p`: where `less`
/// finds `p` below `min`, `plus` has moved it up by `max`; else it is `p`.
pub open spec fn lifted_once<T, L: Fn(&T, &T) -> bool, A: Fn(T, &T) -> T>(
    p: T,
    min: T,
    max: T,
    less: L,
    plus: A,
    lifted: T,
) -> bool {
    exists|below: bool| #[trigger]
        less.ensures((&p, &min), below) && (if below {
            plus.ensures((p, &max), lifted)
        } else {
            lifted == p
        })
}

/// `wrapped` is what the second half of the wrap makes of `lifted`: where
/// `less` finds `max` below `lifted`, `minus` has moved it down by `max`;
/// else it is `lifted`.
pub open spec fn lowered_once<T, L: Fn(&T, &T) -> bool, S: Fn(T, &T) -> T>(
    lifted: T,
    max: T,
    less: L,
    minus: S,
    wrapped: T,
) -> bool {
    exists|above: bool| #[trigger]
        less.ensures((&max, &lifted), above) && (if above {
            minus.ensures((lifted, &max), wrapped)
        } else {
            wrapped == lifted
        })
}

/// Wraps a coordinate around one axis of the field by a single step.
///
/// If the coordinate is below `min`, the length `max` is added to it once.
/// If what is there then is above `max`, the length `max` is taken from it
/// once. Nothing else is done: the result of a coordinate that is more than
/// one field away from the field lies outside the field.
pub fn wrap_once<T, L: Fn(&T, &T) -> bool, A: Fn(T, &T) -> T, S: Fn(T, &T) -> T>(
    p: T,
    min: &T,
    max: &T,
    less: &L,
    plus: &A,
    minus: &S,
) -> (wrapped: T)
    requires
        forall|a: &T, b: &T| less.requires((a, b)),
        forall|a: T, b: &T| plus.requires((a, b)),
        forall|a: T, b: &T| minus.requires((a, b)),
    ensures
        exists|lifted: T| #[trigger]
            lifted_once(p, *min, *max, *less, *plus, lifted) && lowered_once(
                lifted,
                *max,
                *less,
                *minus,
                wrapped,
            ),
{
    let below = less(&p, min);
    let lifted = if below {
        plus(p, max)
    } else {
        p
    };
    assert(lifted_once(p, *min, *max, *less, *plus, lifted));
    let above = less(max, &lifted);
    let wrapped = if above {
        minus(lifted, max)
    } else {
        lifted
    };
    assert(lowered_once(lifted, *max, *less, *minus, wrapped));
    wrapped
}

/// How many times as hard thrust pushes a player that flies against its
/// heading.
pub const REVERSE_THRUST: u8 = 2;

/// How hard thrust pushes: once, or [`REVERSE_THRUST`] times against the
/// heading.
pub open spec fn thrust_factor(backward: bool) -> u8 {
    if backward {
        REVERSE_THRUST
    } else {
        1
    }
}

/// `pushed` is what thrust makes of the motion `v`: `is_backward` has said
/// whether the player flies against its heading, and `accelerate` has
/// pushed the motion forward with the factor that follows.
pub open spec fn pushed_by<V, R: Fn(&V) -> bool, A: Fn(V, u8) -> V>(
    v: V,
    is_backward: R,
    accelerate: A,
    pushed: V,
) -> bool {
    exists|backward: bool| #[trigger]
        is_backward.ensures((&v,), backward) && accelerate.ensures(
            (v, thrust_factor(backward)),
            pushed,
        )
}

/// `capped` is what the speed limit makes of the motion `pushed`: where
/// `too_fast` finds it over the limit, `clamp` has cut it to the limit;
/// else it is `pushed`.
pub open spec fn capped_by<V, T: Fn(&V) -> bool, C: Fn(V) -> V>(
    pushed: V,
    too_fast: T,
    clamp: C,
    capped: V,
) -> bool {
    exists|fast: bool| #[trigger]
        too_fast.ensures((&pushed,), fast) && (if fast {
            clamp.ensures((pushed,), capped)
        } else {
            capped == pushed
        })
}

/// The player's motion after one frame of its drive.
///
/// With `thrusting` the motion is pushed forward by `accelerate`, once as
/// hard as the thrust is, or [`REVERSE_THRUST`] times as hard if
/// `is_backward` finds that the player flies against its heading. The
/// outcome is cut to the speed limit by `clamp` if `too_fast` finds it over
/// the limit. Without thrust the motion is slowed towards rest by
/// `decelerate` and nothing else.
pub fn drive<
    V,
    R: Fn(&V) -> bool,
    A: Fn(V, u8) -> V,
    T: Fn(&V) -> bool,
    C: Fn(V) -> V,
    D: Fn(V) -> V,
>(v: V, thrusting: bool, is_backward: &R, accelerate: &A, too_fast: &T, clamp: &C, decelerate: &D) -> (driven:
    V)
    requires
        forall|x: &V| is_backward.requires((x,)),
        forall|x: V, factor: u8| accelerate.requires((x, factor)),
        forall|x: &V| too_fast.requires((x,)),
        forall|x: V| clamp.requires((x,)),
        forall|x: V| decelerate.requires((x,)),
    ensures
        thrusting ==> exists|pushed: V| #[trigger]
            pushed_by(v, *is_backward, *accelerate, pushed) && capped_by(
                pushed,
                *too_fast,
                *clamp,
                driven,
            ),
        !thrusting ==> decelerate.ensures((v,), driven),
{
    if thrusting {
        let backward = is_backward(&v);
        let factor = if backward {
            REVERSE_THRUST
        } else {
            1
        };
        let pushed = accelerate(v, factor);
        assert(pushed_by(v, *is_backward, *accelerate, pushed));
        let fast = too_fast(&pushed);
        let capped = if fast {
            clamp(pushed)
        } else {
            pushed
        };
        assert(capped_by(pushed, *too_fast, *clamp, capped));
        capped
    } else {
        decelerate(v)
    }
}

} // verus!
