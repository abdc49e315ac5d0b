//! Common property patterns: algebraic laws and round trips, as closure properties.
//!
//! Each pattern gives a property whose check calls the user's functions on clones of
//! the input and compares the results with `==` (or `<=`, `>=`) of their types. What a
//! check gives back is stated over those calls; what `==` answers is stated for types
//! whose equality obeys its specification.

use vstd::prelude::*;
use vstd::std_specs::cmp::PartialEqSpec;
use crate::ergonomic::closure_property::{ClosureProperty, PropertyClosure, bool_outcome, bool_result};
use crate::error::PropertyError;

verus! {

/// Whether `res` is what a check of `x == y` may answer.
pub open spec fn equals<A: PartialEq>(x: A, y: A, res: bool) -> bool {
    A::obeys_eq_spec() ==> res == x.eq_spec(&y)
}

/// A commutativity check of `p`: `op(a, b)` on clones and `op(b, a)` compared.
pub open spec fn commutative_parts<T: Clone, R: PartialEq, F: Fn(T, T) -> R>(
    op: F,
    p: (T, T),
    a1: T,
    b1: T,
    ab: R,
    ba: R,
    res: bool,
) -> bool {
    &&& cloned(p.0, a1)
    &&& cloned(p.1, b1)
    &&& call_ensures(op, (a1, b1), ab)
    &&& call_ensures(op, (p.1, p.0), ba)
    &&& equals(ab, ba, res)
}

/// The check of commutativity of an operation.
pub struct Commutative<F> {
    /// The operation.
    pub op: F,
}

impl<T: Clone, R: PartialEq, F: Fn(T, T) -> R> PropertyClosure<(T, T)> for Commutative<F> {
    type Output = ();

    open spec fn accepts(&self, input: (T, T)) -> bool {
        forall|x: T, y: T| #[trigger] call_requires(self.op, (x, y))
    }

    open spec fn outcome(&self, input: (T, T), r: Result<(), PropertyError>) -> bool {
        exists|a1: T, b1: T, ab: R, ba: R, res: bool|
            #[trigger] commutative_parts(self.op, input, a1, b1, ab, ba, res) && bool_outcome(res, r)
    }

    fn call(&self, input: (T, T)) -> (r: Result<(), PropertyError>) {
        let ghost gp = input;
        let (a, b) = input;
        let a1 = a.clone();
        let b1 = b.clone();
        let ghost (ga1, gb1) = (a1, b1);
        let ab = (self.op)(a1, b1);
        let ba = (self.op)(b, a);
        let res = ab == ba;
        assert(commutative_parts(self.op, gp, ga1, gb1, ab, ba, res));
        bool_result(res)
    }
}

/// Commutativity of `op`: `op(a, b) == op(b, a)`.
pub fn commutative<T: Clone, R: PartialEq, F: Fn(T, T) -> R>(op: F) -> (r: ClosureProperty<Commutative<F>>)
    ensures
        r.closure.op == op,
{
    ClosureProperty::new(Commutative { op })
}

/// An associativity check of `p = (a, b, c)`: `op(op(a, b), c)` and `op(a, op(b, c))`
/// compared, the first on clones.
pub open spec fn associative_parts<T: Clone + PartialEq, F: Fn(T, T) -> T>(
    op: F,
    p: (T, T, T),
    a1: T,
    b1: T,
    c1: T,
    ab: T,
    ab_c: T,
    bc: T,
    a_bc: T,
    res: bool,
) -> bool {
    &&& cloned(p.0, a1)
    &&& cloned(p.1, b1)
    &&& cloned(p.2, c1)
    &&& call_ensures(op, (a1, b1), ab)
    &&& call_ensures(op, (ab, c1), ab_c)
    &&& call_ensures(op, (p.1, p.2), bc)
    &&& call_ensures(op, (p.0, bc), a_bc)
    &&& equals(ab_c, a_bc, res)
}

/// The check of associativity of an operation.
pub struct Associative<F> {
    /// The operation.
    pub op: F,
}

impl<T: Clone + PartialEq, F: Fn(T, T) -> T> PropertyClosure<(T, T, T)> for Associative<F> {
    type Output = ();

    open spec fn accepts(&self, input: (T, T, T)) -> bool {
        forall|x: T, y: T| #[trigger] call_requires(self.op, (x, y))
    }

    open spec fn outcome(&self, input: (T, T, T), r: Result<(), PropertyError>) -> bool {
        exists|a1: T, b1: T, c1: T, ab: T, ab_c: T, bc: T, a_bc: T, res: bool|
            #[trigger] associative_parts(self.op, input, a1, b1, c1, ab, ab_c, bc, a_bc, res)
                && bool_outcome(res, r)
    }

    fn call(&self, input: (T, T, T)) -> (r: Result<(), PropertyError>) {
        let ghost gp = input;
        let (a, b, c) = input;
        let a1 = a.clone();
        let b1 = b.clone();
        let c1 = c.clone();
        let ghost (ga1, gb1, gc1) = (a1, b1, c1);
        let ab = (self.op)(a1, b1);
        let ghost gab = ab;
        let ab_c = (self.op)(ab, c1);
        let bc = (self.op)(b, c);
        let ghost gbc = bc;
        let a_bc = (self.op)(a, bc);
        let res = ab_c == a_bc;
        assert(associative_parts(self.op, gp, ga1, gb1, gc1, gab, ab_c, gbc, a_bc, res));
        bool_result(res)
    }
}

/// Associativity of `op`: `op(op(a, b), c) == op(a, op(b, c))`.
pub fn associative<T: Clone + PartialEq, F: Fn(T, T) -> T>(op: F) -> (r: ClosureProperty<Associative<F>>)
    ensures
        r.closure.op == op,
{
    ClosureProperty::new(Associative { op })
}

/// An idempotence check of `x`: `f` on a clone of `x`, then `f` on a clone of that,
/// the two results compared.
pub open spec fn idempotent_parts<T: Clone + PartialEq, F: Fn(T) -> T>(
    f: F,
    x: T,
    x1: T,
    fx: T,
    fx1: T,
    ffx: T,
    res: bool,
) -> bool {
    &&& cloned(x, x1)
    &&& call_ensures(f, (x1,), fx)
    &&& cloned(fx, fx1)
    &&& call_ensures(f, (fx1,), ffx)
    &&& equals(fx, ffx, res)
}

/// The check of idempotence of a function.
pub struct Idempotent<F> {
    /// The function.
    pub f: F,
}

impl<T: Clone + PartialEq, F: Fn(T) -> T> PropertyClosure<T> for Idempotent<F> {
    type Output = ();

    open spec fn accepts(&self, input: T) -> bool {
        forall|x: T| #[trigger] call_requires(self.f, (x,))
    }

    open spec fn outcome(&self, input: T, r: Result<(), PropertyError>) -> bool {
        exists|x1: T, fx: T, fx1: T, ffx: T, res: bool|
            #[trigger] idempotent_parts(self.f, input, x1, fx, fx1, ffx, res) && bool_outcome(res, r)
    }

    fn call(&self, x: T) -> (r: Result<(), PropertyError>) {
        let x1 = x.clone();
        let ghost gx1 = x1;
        let fx = (self.f)(x1);
        let fx1 = fx.clone();
        let ghost gfx1 = fx1;
        let ffx = (self.f)(fx1);
        let res = fx == ffx;
        assert(idempotent_parts(self.f, x, gx1, fx, gfx1, ffx, res));
        bool_result(res)
    }
}

/// Idempotence of `f`: `f(f(x)) == f(x)`.
pub fn idempotent<T: Clone + PartialEq, F: Fn(T) -> T>(f: F) -> (r: ClosureProperty<Idempotent<F>>)
    ensures
        r.closure.f == f,
{
    ClosureProperty::new(Idempotent { f })
}

/// A round-trip check of `x`: `encode` on a clone, `decode` of that, compared with `x`.
pub open spec fn round_trip_parts<T: Clone + PartialEq, U, E: Fn(T) -> U, D: Fn(U) -> T>(
    encode: E,
    decode: D,
    x: T,
    x1: T,
    encoded: U,
    decoded: T,
    res: bool,
) -> bool {
    &&& cloned(x, x1)
    &&& call_ensures(encode, (x1,), encoded)
    &&& call_ensures(decode, (encoded,), decoded)
    &&& equals(decoded, x, res)
}

/// The check that decoding undoes encoding.
pub struct RoundTrip<E, D> {
    /// The encoder.
    pub encode: E,
    /// The decoder.
    pub decode: D,
}

impl<T: Clone + PartialEq, U, E: Fn(T) -> U, D: Fn(U) -> T> PropertyClosure<T> for RoundTrip<E, D> {
    type Output = ();

    open spec fn accepts(&self, input: T) -> bool {
        &&& forall|x: T| #[trigger] call_requires(self.encode, (x,))
        &&& forall|u: U| #[trigger] call_requires(self.decode, (u,))
    }

    open spec fn outcome(&self, input: T, r: Result<(), PropertyError>) -> bool {
        exists|x1: T, encoded: U, decoded: T, res: bool|
            #[trigger] round_trip_parts(self.encode, self.decode, input, x1, encoded, decoded, res)
                && bool_outcome(res, r)
    }

    fn call(&self, x: T) -> (r: Result<(), PropertyError>) {
        let x1 = x.clone();
        let ghost gx1 = x1;
        let encoded = (self.encode)(x1);
        let ghost genc = encoded;
        let decoded = (self.decode)(encoded);
        let res = decoded == x;
        assert(round_trip_parts(self.encode, self.decode, x, gx1, genc, decoded, res));
        bool_result(res)
    }
}

/// Round trip: `decode(encode(x)) == x`.
pub fn round_trip<T: Clone + PartialEq, U, E: Fn(T) -> U, D: Fn(U) -> T>(encode: E, decode: D) -> (r:
    ClosureProperty<RoundTrip<E, D>>)
    ensures
        r.closure.encode == encode,
        r.closure.decode == decode,
{
    ClosureProperty::new(RoundTrip { encode, decode })
}

/// An inverse check of `x`: `f(g(x))` and `g(f(x))`, each on a clone, compared with `x`;
/// the second only when the first holds.
pub open spec fn inverse_parts<T: Clone + PartialEq, F: Fn(T) -> T, G: Fn(T) -> T>(
    f: F,
    g: G,
    x: T,
    x1: T,
    gx: T,
    fgx: T,
    x2: T,
    fx: T,
    gfx: T,
    res: bool,
) -> bool {
    &&& cloned(x, x1)
    &&& call_ensures(g, (x1,), gx)
    &&& call_ensures(f, (gx,), fgx)
    &&& cloned(x, x2)
    &&& call_ensures(f, (x2,), fx)
    &&& call_ensures(g, (fx,), gfx)
    &&& exists|e1: bool, e2: bool|
        equals(fgx, x, e1) && equals(gfx, x, e2) && res == (e1 && e2)
}

/// The check that two functions undo each other.
pub struct Inverse<F, G> {
    /// The first function.
    pub f: F,
    /// The second function.
    pub g: G,
}

impl<T: Clone + PartialEq, F: Fn(T) -> T, G: Fn(T) -> T> PropertyClosure<T> for Inverse<F, G> {
    type Output = ();

    open spec fn accepts(&self, input: T) -> bool {
        &&& forall|x: T| #[trigger] call_requires(self.f, (x,))
        &&& forall|x: T| #[trigger] call_requires(self.g, (x,))
    }

    open spec fn outcome(&self, input: T, r: Result<(), PropertyError>) -> bool {
        exists|x1: T, gx: T, fgx: T, x2: T, fx: T, gfx: T, res: bool|
            #[trigger] inverse_parts(self.f, self.g, input, x1, gx, fgx, x2, fx, gfx, res)
                && bool_outcome(res, r)
    }

    fn call(&self, x: T) -> (r: Result<(), PropertyError>) {
        let x1 = x.clone();
        let ghost gx1 = x1;
        let gx = (self.g)(x1);
        let ghost ggx = gx;
        let fgx = (self.f)(gx);
        let x2 = x.clone();
        let ghost gx2 = x2;
        let fx = (self.f)(x2);
        let ghost gfx_ = fx;
        let gfx = (self.g)(fx);
        let e1 = fgx == x;
        let e2 = gfx == x;
        let res = e1 && e2;
        assert(equals(fgx, x, e1) && equals(gfx, x, e2) && res == (e1 && e2));
        assert(inverse_parts(self.f, self.g, x, gx1, ggx, fgx, gx2, gfx_, gfx, res));
        bool_result(res)
    }
}

/// `f` and `g` are inverses: `f(g(x)) == x` and `g(f(x)) == x`.
pub fn inverse<T: Clone + PartialEq, F: Fn(T) -> T, G: Fn(T) -> T>(f: F, g: G) -> (r: ClosureProperty<
    Inverse<F, G>,
>)
    ensures
        r.closure.f == f,
        r.closure.g == g,
{
    ClosureProperty::new(Inverse { f, g })
}

/// An identity check of `x`: `op(x, e)`, on clones, compared with `x`.
pub open spec fn identity_parts<T: Clone + PartialEq, F: Fn(T, T) -> T>(
    op: F,
    identity: T,
    x: T,
    x1: T,
    e1: T,
    result: T,
    res: bool,
) -> bool {
    &&& cloned(x, x1)
    &&& cloned(identity, e1)
    &&& call_ensures(op, (x1, e1), result)
    &&& equals(result, x, res)
}

/// The check that a value is an identity of an operation.
pub struct HasIdentity<F, T> {
    /// The operation.
    pub op: F,
    /// The identity.
    pub identity: T,
}

impl<T: Clone + PartialEq, F: Fn(T, T) -> T> PropertyClosure<T> for HasIdentity<F, T> {
    type Output = ();

    open spec fn accepts(&self, input: T) -> bool {
        forall|a: T, b: T| #[trigger] call_requires(self.op, (a, b))
    }

    open spec fn outcome(&self, input: T, r: Result<(), PropertyError>) -> bool {
        exists|x1: T, e1: T, result: T, res: bool|
            #[trigger] identity_parts(self.op, self.identity, input, x1, e1, result, res)
                && bool_outcome(res, r)
    }

    fn call(&self, x: T) -> (r: Result<(), PropertyError>) {
        let x1 = x.clone();
        let ghost gx1 = x1;
        let e1 = self.identity.clone();
        let ghost ge1 = e1;
        let result = (self.op)(x1, e1);
        let res = result == x;
        assert(equals(result, x, res));
        assert(identity_parts(self.op, self.identity, x, gx1, ge1, result, res));
        bool_result(res)
    }
}

/// `identity` is an identity of `op`: `op(x, identity) == x`.
pub fn has_identity<T: Clone + PartialEq, F: Fn(T, T) -> T>(op: F, identity: T) -> (r: ClosureProperty<
    HasIdentity<F, T>,
>)
    ensures
        r.closure.op == op,
        r.closure.identity == identity,
{
    ClosureProperty::new(HasIdentity { op, identity })
}

/// A distributivity check of `p = (a, b, c)`: `f(a, g(b, c))` and
/// `g(f(a, b), f(a, c))`, on clones where the original clones, compared.
pub open spec fn distributive_parts<T: Clone + PartialEq, F: Fn(T, T) -> T, G: Fn(T, T) -> T>(
    f: F,
    g: G,
    p: (T, T, T),
    clones: (T, T, T, T),
    values: (T, T, T, T, T),
    res: bool,
) -> bool {
    &&& cloned(p.0, clones.0)
    &&& cloned(p.1, clones.1)
    &&& cloned(p.2, clones.2)
    &&& call_ensures(g, (clones.1, clones.2), values.0)
    &&& call_ensures(f, (clones.0, values.0), values.1)
    &&& cloned(p.0, clones.3)
    &&& call_ensures(f, (clones.3, p.1), values.2)
    &&& call_ensures(f, (p.0, p.2), values.3)
    &&& call_ensures(g, (values.2, values.3), values.4)
    &&& equals(values.1, values.4, res)
}

/// The check that one operation distributes over another.
pub struct Distributive<F, G> {
    /// The distributing operation.
    pub f: F,
    /// The operation distributed over.
    pub g: G,
}

impl<T: Clone + PartialEq, F: Fn(T, T) -> T, G: Fn(T, T) -> T> PropertyClosure<(T, T, T)> for Distributive<
    F,
    G,
> {
    type Output = ();

    open spec fn accepts(&self, input: (T, T, T)) -> bool {
        &&& forall|x: T, y: T| #[trigger] call_requires(self.f, (x, y))
        &&& forall|x: T, y: T| #[trigger] call_requires(self.g, (x, y))
    }

    open spec fn outcome(&self, input: (T, T, T), r: Result<(), PropertyError>) -> bool {
        exists|clones: (T, T, T, T), values: (T, T, T, T, T), res: bool|
            #[trigger] distributive_parts(self.f, self.g, input, clones, values, res) && bool_outcome(
                res,
                r,
            )
    }

    fn call(&self, p: (T, T, T)) -> (r: Result<(), PropertyError>) {
        let ghost gp = p;
        let (a, b, c) = p;
        let a1 = a.clone();
        let b1 = b.clone();
        let c1 = c.clone();
        let ghost (ga1, gb1, gc1) = (a1, b1, c1);
        let gbc = (self.g)(b1, c1);
        let ghost ggbc = gbc;
        let left = (self.f)(a1, gbc);
        let a2 = a.clone();
        let ghost ga2 = a2;
        let fab = (self.f)(a2, b);
        let ghost gfab = fab;
        let fac = (self.f)(a, c);
        let ghost gfac = fac;
        let right = (self.g)(fab, fac);
        let res = left == right;
        assert(distributive_parts(
            self.f,
            self.g,
            gp,
            (ga1, gb1, gc1, ga2),
            (ggbc, left, gfab, gfac, right),
            res,
        ));
        bool_result(res)
    }
}

/// `f` distributes over `g`: `f(a, g(b, c)) == g(f(a, b), f(a, c))`.
pub fn distributive<T: Clone + PartialEq, F: Fn(T, T) -> T, G: Fn(T, T) -> T>(f: F, g: G) -> (r:
    ClosureProperty<Distributive<F, G>>)
    ensures
        r.closure.f == f,
        r.closure.g == g,
{
    ClosureProperty::new(Distributive { f, g })
}

/// A monotonicity check of `p = (a, b)`: when `a <= b`, `f` on clones of both and the
/// results compared with `<=` (increasing) or `>=` (decreasing); passing otherwise.
pub open spec fn monotonic_outcome<T: Clone + PartialOrd, R: PartialOrd, F: Fn(T) -> R>(
    f: F,
    increasing: bool,
    p: (T, T),
    r: Result<(), PropertyError>,
) -> bool {
    exists|ordered: bool|
        #![trigger call_ensures(T::le, (&p.0, &p.1), ordered)]
        call_ensures(T::le, (&p.0, &p.1), ordered) && (if ordered {
            exists|a1: T, b1: T, fa: R, fb: R, res: bool|
                #![trigger call_ensures(f, (a1,), fa), call_ensures(f, (b1,), fb), bool_outcome(res, r)]
                cloned(p.0, a1) && cloned(p.1, b1) && call_ensures(f, (a1,), fa) && call_ensures(
                    f,
                    (b1,),
                    fb,
                ) && (if increasing {
                    call_ensures(R::le, (&fa, &fb), res)
                } else {
                    call_ensures(R::ge, (&fa, &fb), res)
                }) && bool_outcome(res, r)
        } else {
            r == Ok::<(), PropertyError>(())
        })
}

/// The check that a function preserves (or reverses) order.
pub struct Monotonic<F> {
    /// The function.
    pub f: F,
    /// Whether the order is preserved (`true`) or reversed.
    pub increasing: bool,
}

impl<T: Clone + PartialOrd, R: PartialOrd, F: Fn(T) -> R> PropertyClosure<(T, T)> for Monotonic<F> {
    type Output = ();

    open spec fn accepts(&self, input: (T, T)) -> bool {
        forall|x: T| #[trigger] call_requires(self.f, (x,))
    }

    open spec fn outcome(&self, input: (T, T), r: Result<(), PropertyError>) -> bool {
        monotonic_outcome(self.f, self.increasing, input, r)
    }

    fn call(&self, p: (T, T)) -> (r: Result<(), PropertyError>) {
        let ghost gp = p;
        let (a, b) = p;
        let ordered = a <= b;
        assert(call_ensures(T::le, (&gp.0, &gp.1), ordered));
        if ordered {
            let a1 = a.clone();
            let b1 = b.clone();
            let ghost (ga1, gb1) = (a1, b1);
            let fa = (self.f)(a1);
            let fb = (self.f)(b1);
            let res = if self.increasing {
                fa <= fb
            } else {
                fa >= fb
            };
            let r = bool_result(res);
            assert(cloned(gp.0, ga1) && cloned(gp.1, gb1) && call_ensures(self.f, (ga1,), fa)
                && call_ensures(self.f, (gb1,), fb));
            r
        } else {
            Ok(())
        }
    }
}

/// `f` is monotonically increasing: `a <= b` implies `f(a) <= f(b)`.
pub fn monotonic_increasing<T: Clone + PartialOrd, R: PartialOrd, F: Fn(T) -> R>(f: F) -> (r:
    ClosureProperty<Monotonic<F>>)
    ensures
        r.closure.f == f,
        r.closure.increasing,
{
    ClosureProperty::new(Monotonic { f, increasing: true })
}

/// `f` is monotonically decreasing: `a <= b` implies `f(a) >= f(b)`.
pub fn monotonic_decreasing<T: Clone + PartialOrd, R: PartialOrd, F: Fn(T) -> R>(f: F) -> (r:
    ClosureProperty<Monotonic<F>>)
    ensures
        r.closure.f == f,
        !r.closure.increasing,
{
    ClosureProperty::new(Monotonic { f, increasing: false })
}

} // verus!

verus! {

/// A commutativity check may be made on every input when the operation may be called on
/// every pair.
pub proof fn lemma_commutative_accepts<T: Clone, R: PartialEq, F: Fn(T, T) -> R>(
    c: Commutative<F>,
    input: (T, T),
)
    requires
        forall|x: T, y: T| #[trigger] call_requires(c.op, (x, y)),
    ensures
        PropertyClosure::<(T, T)>::accepts(&c, input),
{
}

/// An associativity check may be made on every input when the operation may be called on
/// every pair.
pub proof fn lemma_associative_accepts<T: Clone + PartialEq, F: Fn(T, T) -> T>(
    c: Associative<F>,
    input: (T, T, T),
)
    requires
        forall|x: T, y: T| #[trigger] call_requires(c.op, (x, y)),
    ensures
        PropertyClosure::<(T, T, T)>::accepts(&c, input),
{
}

/// An idempotence check may be made on every input when the function may be called on
/// every value.
pub proof fn lemma_idempotent_accepts<T: Clone + PartialEq, F: Fn(T) -> T>(c: Idempotent<F>, input: T)
    requires
        forall|x: T| #[trigger] call_requires(c.f, (x,)),
    ensures
        PropertyClosure::<T>::accepts(&c, input),
{
}

/// A round-trip check may be made on every input when both functions may be called on
/// every value.
pub proof fn lemma_round_trip_accepts<T: Clone + PartialEq, U, E: Fn(T) -> U, D: Fn(U) -> T>(
    c: RoundTrip<E, D>,
    input: T,
)
    requires
        forall|x: T| #[trigger] call_requires(c.encode, (x,)),
        forall|u: U| #[trigger] call_requires(c.decode, (u,)),
    ensures
        PropertyClosure::<T>::accepts(&c, input),
{
}

/// An inverse check may be made on every input when both functions may be called on every
/// value.
pub proof fn lemma_inverse_accepts<T: Clone + PartialEq, F: Fn(T) -> T, G: Fn(T) -> T>(
    c: Inverse<F, G>,
    input: T,
)
    requires
        forall|x: T| #[trigger] call_requires(c.f, (x,)),
        forall|x: T| #[trigger] call_requires(c.g, (x,)),
    ensures
        PropertyClosure::<T>::accepts(&c, input),
{
}

/// An identity check may be made on every input when the operation may be called on every
/// pair.
pub proof fn lemma_has_identity_accepts<T: Clone + PartialEq, F: Fn(T, T) -> T>(
    c: HasIdentity<F, T>,
    input: T,
)
    requires
        forall|x: T, y: T| #[trigger] call_requires(c.op, (x, y)),
    ensures
        PropertyClosure::<T>::accepts(&c, input),
{
}

/// A distributivity check may be made on every input when both operations may be called
/// on every pair.
pub proof fn lemma_distributive_accepts<T: Clone + PartialEq, F: Fn(T, T) -> T, G: Fn(T, T) -> T>(
    c: Distributive<F, G>,
    input: (T, T, T),
)
    requires
        forall|x: T, y: T| #[trigger] call_requires(c.f, (x, y)),
        forall|x: T, y: T| #[trigger] call_requires(c.g, (x, y)),
    ensures
        PropertyClosure::<(T, T, T)>::accepts(&c, input),
{
}

/// A monotonicity check may be made on every input when the function may be called on
/// every value.
pub proof fn lemma_monotonic_accepts<T: Clone + PartialOrd, R: PartialOrd, F: Fn(T) -> R>(
    c: Monotonic<F>,
    input: (T, T),
)
    requires
        forall|x: T| #[trigger] call_requires(c.f, (x,)),
    ensures
        PropertyClosure::<(T, T)>::accepts(&c, input),
{
}

} // verus!
