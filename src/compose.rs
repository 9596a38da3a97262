use vstd::prelude::*;

verus! {

/// A callable whose result is fixed by its argument: any two results it may
/// return for the same argument are equal.
pub open spec fn deterministic<A, B, F: Fn(A) -> B>(f: F) -> bool {
    forall|a: A, b1: B, b2: B|
        #[trigger] f.ensures((a,), b1) && #[trigger] f.ensures((a,), b2) ==> b1 == b2
}

/// `h` behaves as `g` applied after `f`: it accepts every argument on which
/// `f` and then `g` may run, and each result it gives is `g` of some result
/// of `f`.
pub open spec fn composes<A, B, C, F: Fn(A) -> B, G: Fn(B) -> C, H: Fn(A) -> C>(
    h: H,
    f: F,
    g: G,
) -> bool {
    &&& forall|x: A|
        #![trigger h.requires((x,))]
        f.requires((x,)) && (forall|y: B| f.ensures((x,), y) ==> g.requires((y,)))
            ==> h.requires((x,))
    &&& forall|x: A, z: C|
        #[trigger] h.ensures((x,), z) ==> exists|y: B| f.ensures((x,), y) && g.ensures((y,), z)
}

/// The identity: hands its argument back unchanged.
pub fn id<T>(t: T) -> (r: T)
    ensures
        r == t,
{
    t
}

/// The function that applies `f`, then `g` to what `f` returned.
pub fn composition<T0, T1, T2>(f: impl Fn(T0) -> T1, g: impl Fn(T1) -> T2) -> (h: impl Fn(
    T0,
) -> T2)
    ensures
        composes(h, f, g),
{
    move |x: T0| -> (z: T2)
        requires
            f.requires((x,)),
            forall|y: T1| f.ensures((x,), y) ==> g.requires((y,)),
        ensures
            exists|y: T1| f.ensures((x,), y) && g.ensures((y,), z),
        {
            let y = f(x);
            g(y)
        }
}

/// Composition applies `g` to what `f` returned: where `f` and `g` are
/// deterministic, `composition(f, g)` runs on every `x` on which `f` and then
/// `g` may run, and what it returns on `x` is what `g` returns on `f(x)`.
pub proof fn lemma_composition_applies<A, B, C, F: Fn(A) -> B, G: Fn(B) -> C, H: Fn(A) -> C>(
    h: H,
    f: F,
    g: G,
    x: A,
    y: B,
    z: C,
)
    requires
        composes(h, f, g),
        deterministic(f),
        deterministic(g),
        f.ensures((x,), y),
        h.ensures((x,), z),
    ensures
        g.ensures((y,), z),
{
    let w = choose|w: B| f.ensures((x,), w) && g.ensures((w,), z);
    assert(w == y);
}

/// Composing with the identity first changes nothing:
/// `composition(id, g)` runs wherever `g` does and returns on `x` what `g`
/// returns on `x`.
pub proof fn lemma_identity_left<A, C, G: Fn(A) -> C, H: Fn(A) -> C>(h: H, g: G, x: A, z: C)
    requires
        composes(h, id::<A>, g),
    ensures
        g.requires((x,)) ==> h.requires((x,)),
        h.ensures((x,), z) ==> g.ensures((x,), z),
{
    if g.requires((x,)) {
        assert(id::<A>.requires((x,)));
    }
}

/// Composing with the identity after changes nothing:
/// `composition(f, id)` runs wherever `f` does and returns on `x` what `f`
/// returns on `x`.
pub proof fn lemma_identity_right<A, B, F: Fn(A) -> B, H: Fn(A) -> B>(h: H, f: F, x: A, z: B)
    requires
        composes(h, f, id::<B>),
    ensures
        f.requires((x,)) ==> h.requires((x,)),
        h.ensures((x,), z) ==> f.ensures((x,), z),
{
}

} // verus!
