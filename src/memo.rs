use std::collections::HashMap;
use std::hash::Hash;
use vstd::prelude::*;
use vstd::std_specs::hash::obeys_key_model;

use crate::compose::deterministic;

verus! {

broadcast use vstd::std_specs::hash::group_hash_axioms;

/// A function wrapped with a cache: each argument is handed to the function
/// the first time it is seen, and every later call with it replays the stored
/// result.
pub struct Memoized<A, B, F> {
    f: F,
    cache: HashMap<A, B>,
    evaluated: Ghost<Seq<A>>,
}

impl<A, B, F> View for Memoized<A, B, F> {
    type V = Map<A, B>;

    /// The cache: each argument seen so far, with the result stored for it.
    closed spec fn view(&self) -> Map<A, B> {
        self.cache@
    }
}

impl<A, B, F: Fn(A) -> B> Memoized<A, B, F> {
    /// The wrapped function.
    pub closed spec fn func(&self) -> F {
        self.f
    }

    /// The arguments on which the wrapped function has been run, in order.
    pub closed spec fn evaluated(&self) -> Seq<A> {
        self.evaluated@
    }

    /// The function ran once for each cached argument and for no other, and
    /// each stored result is one the function may return on its argument.
    pub open spec fn wf(&self) -> bool {
        &&& obeys_key_model::<A>()
        &&& self.evaluated().no_duplicates()
        &&& forall|a: A| #[trigger] self.evaluated().contains(a) <==> self@.contains_key(a)
        &&& forall|a: A| #[trigger] self@.contains_key(a) ==> self.func().ensures((a,), self@[a])
    }

    /// What one call with `arg` does, taking `m0` to `m1` and returning `r`: a
    /// cached argument gives its stored result and changes nothing; a new one
    /// runs the function once, and its result is stored and returned.
    pub open spec fn call_step(m0: Self, arg: A, m1: Self, r: B) -> bool {
        &&& m1.func() == m0.func()
        &&& m0@.contains_key(arg) ==> {
            &&& r == m0@[arg]
            &&& m1@ == m0@
            &&& m1.evaluated() == m0.evaluated()
        }
        &&& !m0@.contains_key(arg) ==> {
            &&& m0.func().ensures((arg,), r)
            &&& m1@ == m0@.insert(arg, r)
            &&& m1.evaluated() == m0.evaluated().push(arg)
        }
    }
}

/// Wraps `f` with an empty cache. The argument type must hash and compare
/// consistently with its equality, as a hash map key is modelled; the
/// primitive integer types and `bool` do.
pub fn memoized<A, B, F: Fn(A) -> B>(f: F) -> (m: Memoized<A, B, F>)
    requires
        obeys_key_model::<A>(),
    ensures
        m.wf(),
        m.func() == f,
        m@ == Map::<A, B>::empty(),
        m.evaluated() == Seq::<A>::empty(),
{
    Memoized { f, cache: HashMap::new(), evaluated: Ghost(Seq::empty()) }
}

impl<A: Copy + Eq + Hash, B: Copy, F: Fn(A) -> B> Memoized<A, B, F> {
    /// The stored result for `arg`; where there is none, the wrapped
    /// function's result on `arg`, which is stored first.
    pub fn call(&mut self, arg: A) -> (r: B)
        requires
            old(self).wf(),
            !old(self)@.contains_key(arg) ==> old(self).func().requires((arg,)),
        ensures
            final(self).wf(),
            Self::call_step(*old(self), arg, *final(self), r),
    {
        match self.cache.get(&arg) {
            Some(v) => *v,
            None => {
                let v = (self.f)(arg);
                self.cache.insert(arg, v);
                proof {
                    let e0 = self.evaluated@;
                    self.evaluated@ = e0.push(arg);
                    let e1 = self.evaluated@;
                    assert(e1[e0.len() as int] == arg);
                    assert forall|a: A| #[trigger] e1.contains(a) <==> self@.contains_key(a) by {
                        if e0.contains(a) {
                            let i = choose|i: int| 0 <= i < e0.len() && e0[i] == a;
                            assert(e1[i] == a);
                        }
                        if e1.contains(a) && a != arg {
                            let i = choose|i: int| 0 <= i < e1.len() && e1[i] == a;
                            assert(e0[i] == a);
                        }
                    }
                    assert forall|a: A| #[trigger] self@.contains_key(a) implies self.f.ensures(
                        (a,),
                        self@[a],
                    ) by {
                        if a != arg {
                            assert(old(self)@.contains_key(a));
                        }
                    }
                    assert forall|i: int, j: int|
                        0 <= i < e1.len() && 0 <= j < e1.len() && i != j implies e1[i] != e1[j] by {
                        if i < e0.len() && j < e0.len() {
                            assert(e0[i] != e0[j]);
                        } else if i < e0.len() {
                            assert(e0.contains(e0[i]));
                        } else if j < e0.len() {
                            assert(e0.contains(e0[j]));
                        }
                    }
                }
                v
            },
        }
    }
}

/// A second call with an argument replays the first call's result, whatever
/// the wrapped function is, even one that may return something else each time:
/// the function is not run again and the wrapper is left as it was. That
/// result is one the function may return on the argument.
pub proof fn lemma_replay<A, B, F: Fn(A) -> B>(
    m0: Memoized<A, B, F>,
    m1: Memoized<A, B, F>,
    m2: Memoized<A, B, F>,
    a: A,
    r1: B,
    r2: B,
)
    requires
        m0.wf(),
        Memoized::call_step(m0, a, m1, r1),
        Memoized::call_step(m1, a, m2, r2),
    ensures
        r2 == r1,
        m2@ == m1@,
        m2.evaluated() == m1.evaluated(),
        m0.func().ensures((a,), r1),
{
}

/// Four calls in a row with one argument return one value four times, and the
/// function runs at most once among them. For a deterministic function that
/// value is the function's result on the argument.
pub proof fn lemma_four_calls<A, B, F: Fn(A) -> B>(
    m0: Memoized<A, B, F>,
    m1: Memoized<A, B, F>,
    m2: Memoized<A, B, F>,
    m3: Memoized<A, B, F>,
    m4: Memoized<A, B, F>,
    a: A,
    r1: B,
    r2: B,
    r3: B,
    r4: B,
    y: B,
)
    requires
        m0.wf(),
        Memoized::call_step(m0, a, m1, r1),
        Memoized::call_step(m1, a, m2, r2),
        Memoized::call_step(m2, a, m3, r3),
        Memoized::call_step(m3, a, m4, r4),
    ensures
        r1 == r2 && r2 == r3 && r3 == r4,
        m4.evaluated().len() <= m0.evaluated().len() + 1,
        deterministic(m0.func()) && m0.func().ensures((a,), y) ==> r1 == y,
{
}

/// A call with one argument leaves what is cached for every other argument
/// as it was.
pub proof fn lemma_other_arguments_kept<A, B, F: Fn(A) -> B>(
    m0: Memoized<A, B, F>,
    m1: Memoized<A, B, F>,
    a: A,
    r: B,
    b: A,
)
    requires
        Memoized::call_step(m0, a, m1, r),
        b != a,
    ensures
        m1@.contains_key(b) == m0@.contains_key(b),
        m0@.contains_key(b) ==> m1@[b] == m0@[b],
{
}

} // verus!
