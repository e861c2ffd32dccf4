use vstd::prelude::*;

verus! {

// The callback adapter: host-supplied predicates and comparators cross the
// bridge as plain function values. The bridge offers no synchronization
// around their invocations, so a callable is admitted only if it is a pure
// function of its arguments: callable on the values it will see, and with
// at most one possible result per input. The spec functions here state
// that discipline, and give names to the two ways a predicate can classify
// a value, so that algorithm contracts can speak about them.
/// `pred` may be invoked on every element of `s`.
pub open spec fn pred_callable_on<F: Fn(i32) -> bool>(pred: F, s: Seq<i32>) -> bool {
    forall|i: int| 0 <= i < s.len() ==> #[trigger] call_requires(pred, (s[i],))
}

/// `pred` behaves as a pure function: for one input, at most one result.
pub open spec fn pred_pure<F: Fn(i32) -> bool>(pred: F) -> bool {
    forall|x: i32, b1: bool, b2: bool|
        #![trigger call_ensures(pred, (x,), b1), call_ensures(pred, (x,), b2)]
        call_ensures(pred, (x,), b1) && call_ensures(pred, (x,), b2) ==> b1 == b2
}

/// `true` is a possible result of `pred` on `x`. For a pure predicate this
/// is exactly "`pred` selects `x`".
pub open spec fn accepted_by<F: Fn(i32) -> bool>(pred: F, x: i32) -> bool {
    call_ensures(pred, (x,), true)
}

/// `false` is not a possible result of `pred` on `x`. For a pure predicate
/// this too is exactly "`pred` selects `x`"; callers may use whichever of
/// the two names their own predicate relates to.
pub open spec fn not_rejected_by<F: Fn(i32) -> bool>(pred: F, x: i32) -> bool {
    !call_ensures(pred, (x,), false)
}

/// `comp` may be invoked on every pair of elements.
pub open spec fn comp_callable<F: Fn(i32, i32) -> bool>(comp: F) -> bool {
    forall|a: i32, b: i32| #[trigger] call_requires(comp, (a, b))
}

/// `comp` behaves as a pure function: for one pair, at most one result.
pub open spec fn comp_pure<F: Fn(i32, i32) -> bool>(comp: F) -> bool {
    forall|a: i32, b: i32, b1: bool, b2: bool|
        #![trigger call_ensures(comp, (a, b), b1), call_ensures(comp, (a, b), b2)]
        call_ensures(comp, (a, b), b1) && call_ensures(comp, (a, b), b2) ==> b1 == b2
}

/// `comp` can order `a` strictly before `b`. For a pure comparator this is
/// exactly "`a` comes before `b`".
pub open spec fn ordered_before<F: Fn(i32, i32) -> bool>(comp: F, a: i32, b: i32) -> bool {
    call_ensures(comp, (a, b), true)
}

} // verus!
