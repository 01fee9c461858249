//! Composition of two unary functions.
use vstd::prelude::*;

use crate::identity::identity;

verus! {

/// The input `x` is fit for `f` then `g`: `f` accepts `x`, and `g` accepts
/// every value that `f` may return on `x`.
pub open spec fn chain_accepts<A, B, C, F: Fn(A) -> B, G: Fn(B) -> C>(f: F, g: G, x: A) -> bool {
    &&& f.requires((x,))
    &&& forall|b: B| #[trigger] f.ensures((x,), b) ==> g.requires((b,))
}

/// `c` is a possible result of running `f` on `x`, then `g` on what `f` returned.
pub open spec fn chain_yields<A, B, C, F: Fn(A) -> B, G: Fn(B) -> C>(f: F, g: G, x: A, c: C) -> bool {
    exists|b: B| #[trigger] f.ensures((x,), b) && g.ensures((b,), c)
}

/// `h` behaves as `g` after `f`: it accepts every input that the chain
/// accepts, and each of its results is a result of the chain.
pub open spec fn is_composition<A, B, C, F: Fn(A) -> B, G: Fn(B) -> C, H: Fn(A) -> C>(
    h: H,
    f: F,
    g: G,
) -> bool {
    &&& forall|x: A| chain_accepts(f, g, x) ==> #[trigger] h.requires((x,))
    &&& forall|x: A, c: C| #[trigger] h.ensures((x,), c) ==> chain_yields(f, g, x, c)
}

/// `f` is pure and total, and computes `m`: it accepts every input, and its
/// result on `x` is always `m(x)`.
pub open spec fn computes<A, B, F: Fn(A) -> B>(f: F, m: spec_fn(A) -> B) -> bool {
    &&& forall|x: A| #[trigger] f.requires((x,))
    &&& forall|x: A, y: B| #[trigger] f.ensures((x,), y) ==> y == m(x)
}

/// `f` is deterministic: two calls on the same input give the same result.
pub open spec fn is_deterministic<A, B, F: Fn(A) -> B>(f: F) -> bool {
    forall|x: A, y1: B, y2: B|
        #[trigger] f.ensures((x,), y1) && #[trigger] f.ensures((x,), y2) ==> y1 == y2
}

/// Returns the function that applies `f`, then `g` to what `f` returned.
pub fn compose<A, B, C, F, G>(f: F, g: G) -> (h: impl Fn(A) -> C)
    where
        F: Fn(A) -> B,
        G: Fn(B) -> C,
    ensures
        is_composition(h, f, g),
{
    move |x: A| -> (c: C)
        requires
            chain_accepts(f, g, x),
        ensures
            chain_yields(f, g, x, c),
        {
            let b = f(x);
            g(b)
        }
}

/// For pure `f` and `g`, a composition of `f` and `g` (such as `compose(f, g)`)
/// is pure too, and its result on `x` is `g(f(x))`.
pub proof fn lemma_composition_applies<A, B, C, F: Fn(A) -> B, G: Fn(B) -> C, H: Fn(A) -> C>(
    f: F,
    g: G,
    h: H,
    mf: spec_fn(A) -> B,
    mg: spec_fn(B) -> C,
)
    requires
        computes(f, mf),
        computes(g, mg),
        is_composition(h, f, g),
    ensures
        computes(h, |x: A| mg(mf(x))),
{
    assert forall|x: A| #[trigger] h.requires((x,)) by {
        assert(chain_accepts(f, g, x));
    }
}

/// Composition is associative: for pure `f`, `g` and `k`, grouping the chain
/// as `compose(compose(f, g), k)` (here `left`, over `fg`) or as
/// `compose(f, compose(g, k))` (here `right`, over `gk`) gives the same result
/// on every input, namely `k(g(f(x)))`.
pub proof fn lemma_composition_associative<
    A,
    B,
    C,
    D,
    F: Fn(A) -> B,
    G: Fn(B) -> C,
    K: Fn(C) -> D,
    FG: Fn(A) -> C,
    GK: Fn(B) -> D,
    L: Fn(A) -> D,
    R: Fn(A) -> D,
>(
    f: F,
    g: G,
    k: K,
    fg: FG,
    gk: GK,
    left: L,
    right: R,
    mf: spec_fn(A) -> B,
    mg: spec_fn(B) -> C,
    mk: spec_fn(C) -> D,
)
    requires
        computes(f, mf),
        computes(g, mg),
        computes(k, mk),
        is_composition(fg, f, g),
        is_composition(left, fg, k),
        is_composition(gk, g, k),
        is_composition(right, f, gk),
    ensures
        computes(left, |x: A| mk(mg(mf(x)))),
        computes(right, |x: A| mk(mg(mf(x)))),
        forall|x: A, d1: D, d2: D|
            #[trigger] left.ensures((x,), d1) && #[trigger] right.ensures((x,), d2) ==> d1 == d2,
{
    lemma_composition_applies(f, g, fg, mf, mg);
    lemma_composition_applies(fg, k, left, |x: A| mg(mf(x)), mk);
    lemma_composition_applies(g, k, gk, mg, mk);
    lemma_composition_applies(f, gk, right, mf, |y: B| mk(mg(y)));
}

/// The identity is a right unit of composition: `compose(f, identity)`
/// accepts every input that `f` accepts, and each of its results on `x` is a
/// result of `f` on `x`.
pub proof fn lemma_identity_right_unit<A, B, F: Fn(A) -> B, H: Fn(A) -> B>(f: F, h: H)
    requires
        is_composition(h, f, identity::<B>),
    ensures
        forall|x: A| f.requires((x,)) ==> #[trigger] h.requires((x,)),
        forall|x: A, y: B| #[trigger] h.ensures((x,), y) ==> f.ensures((x,), y),
{
    assert forall|x: A| f.requires((x,)) implies #[trigger] h.requires((x,)) by {
        assert forall|b: B| #[trigger] f.ensures((x,), b) implies identity::<B>.requires((b,)) by {}
        assert(chain_accepts(f, identity::<B>, x));
    }
}

/// The identity is a left unit of composition: `compose(identity, f)`
/// accepts every input that `f` accepts, and each of its results on `x` is a
/// result of `f` on `x`.
pub proof fn lemma_identity_left_unit<A, B, F: Fn(A) -> B, H: Fn(A) -> B>(f: F, h: H)
    requires
        is_composition(h, identity::<A>, f),
    ensures
        forall|x: A| f.requires((x,)) ==> #[trigger] h.requires((x,)),
        forall|x: A, y: B| #[trigger] h.ensures((x,), y) ==> f.ensures((x,), y),
{
    assert forall|x: A| f.requires((x,)) implies #[trigger] h.requires((x,)) by {
        assert(chain_accepts(identity::<A>, f, x));
    }
}

/// A composition of a deterministic `f` with a deterministic `g` (such as
/// `compose(f, g)`) is deterministic: calling it twice on the same input
/// gives the same result.
pub proof fn lemma_composition_deterministic<A, B, C, F: Fn(A) -> B, G: Fn(B) -> C, H: Fn(A) -> C>(
    f: F,
    g: G,
    h: H,
)
    requires
        is_deterministic(f),
        is_deterministic(g),
        is_composition(h, f, g),
    ensures
        is_deterministic(h),
{
}

} // verus!
