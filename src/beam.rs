//! Material data and the closed-form beam profiles.
use crate::numeric::{valid_precision, Numeric};
use vstd::prelude::*;

verus! {

/// Bulk thermal constants of the medium.
#[derive(Clone, Debug, PartialEq)]
pub struct ThermalProperties<T> {
    /// Density. Units: g*cm^-3
    pub rho: T,
    /// Specific heat. Units: J*g^-1*K^-1
    pub c: T,
    /// Conductivity. Units: W*cm^-1*K^-1
    pub k: T,
}

/// One absorbing slab of tissue.
#[derive(Clone, Debug, PartialEq)]
pub struct Layer<T> {
    /// Thickness. Units: cm
    pub d: T,
    /// Depth of the top surface. Units: cm
    pub z0: T,
    /// Absorption coefficient. Units: cm^-1
    pub mu_a: T,
    /// Irradiance at the top surface. Units: W*cm^-2
    pub e0: T,
}

/// A laterally infinite beam.
#[derive(Clone, Copy, Debug, PartialEq)]
pub struct LargeBeam;

/// A collimated beam of finite radius with a hard edge.
#[derive(Clone, Debug, PartialEq)]
pub struct FlatTopBeam<T> {
    /// Units: cm
    pub radius: T,
}

/// Thermal diffusivity `k / (rho * c)` at `p` bits.
pub open spec fn diffusivity<T: Numeric>(p: nat, tp: ThermalProperties<T>) -> T {
    T::quotient(T::quotient(T::rounded(tp.k, p), tp.rho, p), tp.c, p)
}

/// The planar solution for a slab with Beer's-law absorption, at `p` bits:
/// `mu_a*e0/(2*rho*c) * exp(-mu_a*(z - z0))` at `t = 0`, and for later times
/// that product times `exp(mu_a^2*alpha*t) * (erf(arg_1) - erf(arg_2))`.
pub open spec fn large_beam_rise<T: Numeric>(
    p: nat,
    tp: ThermalProperties<T>,
    layer: Layer<T>,
    z: T,
    t: T,
) -> T {
    let alpha = diffusivity(p, tp);
    let term_1 = T::quotient(
        T::quotient(T::quotient(T::product(T::rounded(layer.mu_a, p), layer.e0, p), tp.rho, p), tp.c, p),
        T::integer(2, p),
        p,
    );
    let term_2 = T::exponential(
        T::negation(T::product(T::difference(T::rounded(z, p), layer.z0, p), layer.mu_a, p)),
        p,
    );
    if T::zero_valued(t) {
        T::product(term_1, term_2, p)
    } else {
        let term_3 = T::exponential(
            T::product(T::product(T::squared(T::rounded(layer.mu_a, p), p), t, p), alpha, p),
            p,
        );
        let reciprocal_sqrt = T::reciprocal(
            T::square_root(T::product(T::product(alpha, t, p), T::integer(4, p), p), p),
            p,
        );
        let sqrt_mu_a = T::product(T::square_root(T::product(alpha, t, p), p), layer.mu_a, p);
        let argument_1 = T::error_function(
            T::sum(
                T::product(T::difference(T::sum(T::rounded(layer.z0, p), layer.d, p), z, p), reciprocal_sqrt, p),
                sqrt_mu_a,
                p,
            ),
            p,
        );
        let argument_2 = T::error_function(
            T::sum(T::product(T::difference(T::rounded(layer.z0, p), z, p), reciprocal_sqrt, p), sqrt_mu_a, p),
            p,
        );
        let term_4 = T::difference(argument_1, argument_2, p);
        T::product(T::product(T::product(term_1, term_2, p), term_3, p), term_4, p)
    }
}

/// The lateral factor of a flat-top beam at `t > 0`: on the axis
/// `1 - exp(-radius^2/(4*alpha*t))`, off it `1 - Q_1(r/(2*alpha*t), radius/(2*alpha*t))`.
pub open spec fn flat_top_radial_factor<T: Numeric>(
    p: nat,
    tp: ThermalProperties<T>,
    radius: T,
    r: T,
    t: T,
) -> T {
    let alpha = diffusivity(p, tp);
    if T::zero_valued(r) {
        let e = T::exponential(
            T::quotient(
                T::quotient(T::quotient(T::squared(T::rounded(radius, p), p), T::integer(-4, p), p), alpha, p),
                t,
                p,
            ),
            p,
        );
        T::difference(T::integer(1, p), e, p)
    } else {
        let scale = T::reciprocal(T::product(T::product(T::integer(2, p), alpha, p), t, p), p);
        let q = T::marcum(1, T::product(scale, r, p), T::product(scale, radius, p), p);
        T::difference(T::integer(1, p), q, p)
    }
}

/// The flat-top beam: the planar solution scaled by the lateral factor; at
/// `t = 0` it is the planar solution inside the radius and zero outside.
pub open spec fn flat_top_rise<T: Numeric>(
    p: nat,
    tp: ThermalProperties<T>,
    layer: Layer<T>,
    radius: T,
    z: T,
    r: T,
    t: T,
) -> T {
    if T::zero_valued(t) && T::below(radius, r) {
        T::integer(0, p)
    } else if T::zero_valued(t) {
        large_beam_rise(p, tp, layer, z, t)
    } else {
        T::product(large_beam_rise(p, tp, layer, z, t), flat_top_radial_factor(p, tp, radius, r, t), p)
    }
}

/// The planar solution is a product rounded to `p` bits.
proof fn large_beam_precision<T: Numeric>(
    p: nat,
    tp: ThermalProperties<T>,
    layer: Layer<T>,
    z: T,
    t: T,
)
    ensures
        T::precision_of(large_beam_rise(p, tp, layer, z, t)) == p,
{
    let rise = large_beam_rise(p, tp, layer, z, t);
    let (x, y) = choose|x: T, y: T| rise == T::product(x, y, p);
    T::product_precision(x, y, p);
}

/// A beam profile: the temperature rise that one layer's absorption causes.
pub trait Beam<T: Numeric> {
    /// The rise at depth `z`, radial offset `r` and time `t`, at `p` bits.
    spec fn rise(&self, p: nat, tp: ThermalProperties<T>, layer: Layer<T>, z: T, r: T, t: T) -> T;

    /// A rise that is not a zero is held at the working precision.
    proof fn rise_precision(&self, p: nat, tp: ThermalProperties<T>, layer: Layer<T>, z: T, r: T, t: T)
        ensures
            !T::zero_valued(self.rise(p, tp, layer, z, r, t)) ==> T::precision_of(
                self.rise(p, tp, layer, z, r, t),
            ) == p,
    ;

    /// Runs the beam over `layer` with the given thermal properties.
    fn evaluate_with(
        &self,
        precision: u64,
        thermal_properties: &ThermalProperties<T>,
        layer: &Layer<T>,
        z: &T,
        r: &T,
        t: &T,
    ) -> (res: T)
        requires
            valid_precision(precision as int),
        ensures
            res == self.rise(precision as nat, *thermal_properties, *layer, *z, *r, *t),
    ;
}

fn diffusivity_of<T: Numeric>(precision: u64, tp: &ThermalProperties<T>) -> (alpha: T)
    requires
        valid_precision(precision as int),
    ensures
        alpha == diffusivity(precision as nat, *tp),
{
    tp.k.round(precision).div(&tp.rho, precision).div(&tp.c, precision)
}

impl<T: Numeric> Beam<T> for LargeBeam {
    open spec fn rise(&self, p: nat, tp: ThermalProperties<T>, layer: Layer<T>, z: T, r: T, t: T) -> T {
        large_beam_rise(p, tp, layer, z, t)
    }

    proof fn rise_precision(&self, p: nat, tp: ThermalProperties<T>, layer: Layer<T>, z: T, r: T, t: T) {
        large_beam_precision(p, tp, layer, z, t);
    }

    fn evaluate_with(
        &self,
        precision: u64,
        thermal_properties: &ThermalProperties<T>,
        layer: &Layer<T>,
        z: &T,
        r: &T,
        t: &T,
    ) -> (res: T) {
        let p = precision;
        let tp = thermal_properties;
        let alpha = diffusivity_of(p, tp);
        let term_1 = layer.mu_a.round(p).mul(&layer.e0, p).div(&tp.rho, p).div(&tp.c, p).div(
            &T::from_i32(2, p),
            p,
        );
        let term_2 = z.round(p).sub(&layer.z0, p).mul(&layer.mu_a, p).neg().exp(p);
        if t.is_zero() {
            return term_1.mul(&term_2, p);
        }
        let term_3 = layer.mu_a.round(p).square(p).mul(t, p).mul(&alpha, p).exp(p);
        let reciprocal_sqrt = alpha.mul(t, p).mul(&T::from_i32(4, p), p).sqrt(p).recip(p);
        let sqrt_mu_a = alpha.mul(t, p).sqrt(p).mul(&layer.mu_a, p);
        let argument_1 = layer.z0.round(p).add(&layer.d, p).sub(z, p).mul(&reciprocal_sqrt, p).add(
            &sqrt_mu_a,
            p,
        ).erf(p);
        let argument_2 = layer.z0.round(p).sub(z, p).mul(&reciprocal_sqrt, p).add(&sqrt_mu_a, p).erf(
            p,
        );
        let term_4 = argument_1.sub(&argument_2, p);
        term_1.mul(&term_2, p).mul(&term_3, p).mul(&term_4, p)
    }
}

impl<T: Numeric> FlatTopBeam<T> {
    /// The lateral factor at `t > 0` (see [`flat_top_radial_factor`]).
    pub fn radial_factor(
        &self,
        precision: u64,
        thermal_properties: &ThermalProperties<T>,
        r: &T,
        t: &T,
    ) -> (res: T)
        requires
            valid_precision(precision as int),
        ensures
            res == flat_top_radial_factor(precision as nat, *thermal_properties, self.radius, *r, *t),
    {
        let p = precision;
        let alpha = diffusivity_of(p, thermal_properties);
        if r.is_zero() {
            let e = self.radius.round(p).square(p).div(&T::from_i32(-4, p), p).div(&alpha, p).div(
                t,
                p,
            ).exp(p);
            T::from_i32(1, p).sub(&e, p)
        } else {
            let scale = T::from_i32(2, p).mul(&alpha, p).mul(t, p).recip(p);
            let a = scale.mul(r, p);
            let b = scale.mul(&self.radius, p);
            let q = T::marcum_q(1, &a, &b, p);
            T::from_i32(1, p).sub(&q, p)
        }
    }
}

impl<T: Numeric> Beam<T> for FlatTopBeam<T> {
    open spec fn rise(&self, p: nat, tp: ThermalProperties<T>, layer: Layer<T>, z: T, r: T, t: T) -> T {
        flat_top_rise(p, tp, layer, self.radius, z, r, t)
    }

    proof fn rise_precision(&self, p: nat, tp: ThermalProperties<T>, layer: Layer<T>, z: T, r: T, t: T) {
        T::integer_zero(p);
        large_beam_precision(p, tp, layer, z, t);
        T::product_precision(
            large_beam_rise(p, tp, layer, z, t),
            flat_top_radial_factor(p, tp, self.radius, r, t),
            p,
        );
    }

    fn evaluate_with(
        &self,
        precision: u64,
        thermal_properties: &ThermalProperties<T>,
        layer: &Layer<T>,
        z: &T,
        r: &T,
        t: &T,
    ) -> (res: T) {
        let instant = t.is_zero();
        if instant && self.radius.lt(r) {
            return T::from_i32(0, precision);
        }
        let z_factor = LargeBeam.evaluate_with(precision, thermal_properties, layer, z, r, t);
        if instant {
            return z_factor;
        }
        let r_factor = self.radial_factor(precision, thermal_properties, r, t);
        z_factor.mul(&r_factor, precision)
    }
}

} // verus!
