//! Time integration of the instantaneous rise through a quadrature engine.
use crate::beam::{Beam, Layer, ThermalProperties};
use crate::numeric::{valid_precision, Numeric};
use vstd::prelude::*;

verus! {

/// A function of time, as the engine sees it.
pub type Integrand<T> = spec_fn(T) -> T;

/// An adaptive integrator over a one-dimensional interval.
pub trait Quadrature<T> {
    /// What the engine answers for the integrand `g` over `[lo, hi]` with
    /// tolerance `epsilon`: an approximate integral and an error estimate.
    spec fn answer(&self, g: Integrand<T>, epsilon: T, lo: T, hi: T) -> (T, T);

    /// The integral of `f` over `bounds`, and an estimate of its error, driven
    /// toward the tolerance `epsilon`. The answer depends on `f` only through
    /// the values it returns.
    fn integrate<F: Fn(T) -> T>(&self, f: F, epsilon: &T, bounds: (&T, &T)) -> (r: (T, T))
        requires
            forall|t: T| #[trigger] f.requires((t,)),
        ensures
            forall|g: Integrand<T>|
                (forall|t: T, v: T| #[trigger] f.ensures((t,), v) ==> v == g(t)) ==> r == self.answer(
                    g,
                    *epsilon,
                    *bounds.0,
                    *bounds.1,
                ),
    ;
}

/// Integrates the beam's rise over one layer across the times in `bounds`:
/// the engine receives `t |-> beam.evaluate_with(precision, ..., t)` with
/// everything else held fixed, and its answer is returned as it is.
pub fn temperature_rise<T: Numeric, Q: Quadrature<T>, B: Beam<T>>(
    precision: u64,
    quadrature: &Q,
    beam: &B,
    thermal_properties: &ThermalProperties<T>,
    layer: &Layer<T>,
    z: &T,
    r: &T,
    epsilon: &T,
    bounds: (&T, &T),
) -> (res: (T, T))
    requires
        valid_precision(precision as int),
    ensures
        res == quadrature.answer(
            (|t: T| beam.rise(precision as nat, *thermal_properties, *layer, *z, *r, t)),
            *epsilon,
            *bounds.0,
            *bounds.1,
        ),
{
    let rise_at = |t: T| -> (v: T)
        requires
            valid_precision(precision as int),
        ensures
            v == beam.rise(precision as nat, *thermal_properties, *layer, *z, *r, t),
        {
            let v = beam.evaluate_with(precision, thermal_properties, layer, z, r, &t);
            v
        };
    quadrature.integrate(rise_at, epsilon, bounds)
}

} // verus!
