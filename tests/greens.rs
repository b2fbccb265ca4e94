use greens::beam::{Beam, FlatTopBeam, LargeBeam, Layer, ThermalProperties};
use greens::integration::{temperature_rise, Integrand, Quadrature};
use greens::layers::MultiLayer;
use greens::numeric::{Int, Nat, Numeric};

/// A double-precision backend; the precision argument is ignored.
#[derive(Clone, Copy, Debug, PartialEq)]
struct F64(f64);

/// The error function: Taylor series near zero, a continued fraction for
/// the complement further out.
fn erf(x: f64) -> f64 {
    if x < 0.0 {
        return -erf(-x);
    }
    if x < 3.0 {
        let mut term = x;
        let mut sum = x;
        let mut n = 0.0;
        loop {
            n += 1.0;
            term *= -x * x / n;
            let add = term / (2.0 * n + 1.0);
            sum += add;
            if add.abs() < 1e-20 * sum.abs() {
                break;
            }
        }
        return sum * 2.0 / std::f64::consts::PI.sqrt();
    }
    // erfc(x) = exp(-x^2)/sqrt(pi) * 1/(x + 1/2/(x + 1/(x + 3/2/(x + ...))))
    let mut f = x;
    for k in (1..60).rev() {
        f = x + (k as f64) / 2.0 / f;
    }
    1.0 - (-x * x).exp() / std::f64::consts::PI.sqrt() / f
}

/// The value that stands in for the Marcum Q-function in these tests.
const MARCUM_STAND_IN: f64 = 0.25;

impl Numeric for F64 {
    // The verification-only members of the interface are never called at run
    // time; they only have to exist. Those whose signatures allow it give the
    // real answer, the others are placeholders.
    fn precision_of(_x: Self) -> Nat {
        Nat
    }
    fn rounded(x: Self, _p: Nat) -> Self {
        x
    }
    fn integer(_n: Int, _p: Nat) -> Self {
        ZERO
    }
    fn sum(x: Self, _y: Self, _p: Nat) -> Self {
        x
    }
    fn difference(x: Self, _y: Self, _p: Nat) -> Self {
        x
    }
    fn product(x: Self, _y: Self, _p: Nat) -> Self {
        x
    }
    fn quotient(x: Self, _y: Self, _p: Nat) -> Self {
        x
    }
    fn negation(x: Self) -> Self {
        x
    }
    fn exponential(x: Self, _p: Nat) -> Self {
        x
    }
    fn square_root(x: Self, _p: Nat) -> Self {
        x
    }
    fn error_function(x: Self, _p: Nat) -> Self {
        x
    }
    fn squared(x: Self, _p: Nat) -> Self {
        x
    }
    fn reciprocal(x: Self, _p: Nat) -> Self {
        x
    }
    fn marcum(_m: Nat, a: Self, _b: Self, _p: Nat) -> Self {
        a
    }
    fn zero_valued(x: Self) -> bool {
        x.0 == 0.0
    }
    fn below(x: Self, y: Self) -> bool {
        x.0 < y.0
    }
    fn below_asymmetric(_x: Self, _y: Self) {}
    fn product_precision(_x: Self, _y: Self, _p: Nat) {}
    fn integer_zero(_p: Nat) {}
    fn zero_sum_exact(_x: Self, _p: Nat) {}
    fn rounded_precision(_x: Self, _p: Nat) {}

    fn prec(&self) -> u64 {
        53
    }
    fn round(&self, _prec: u64) -> Self {
        *self
    }
    fn from_i32(n: i32, _prec: u64) -> Self {
        F64(n as f64)
    }
    fn add(&self, other: &Self, _prec: u64) -> Self {
        F64(self.0 + other.0)
    }
    fn sub(&self, other: &Self, _prec: u64) -> Self {
        F64(self.0 - other.0)
    }
    fn mul(&self, other: &Self, _prec: u64) -> Self {
        F64(self.0 * other.0)
    }
    fn div(&self, other: &Self, _prec: u64) -> Self {
        F64(self.0 / other.0)
    }
    fn neg(&self) -> Self {
        F64(-self.0)
    }
    fn exp(&self, _prec: u64) -> Self {
        F64(self.0.exp())
    }
    fn sqrt(&self, _prec: u64) -> Self {
        F64(self.0.sqrt())
    }
    fn erf(&self, _prec: u64) -> Self {
        F64(erf(self.0))
    }
    fn square(&self, _prec: u64) -> Self {
        F64(self.0 * self.0)
    }
    fn recip(&self, _prec: u64) -> Self {
        F64(1.0 / self.0)
    }
    fn marcum_q(_order: u64, _a: &Self, _b: &Self, _prec: u64) -> Self {
        F64(MARCUM_STAND_IN)
    }
    fn is_zero(&self) -> bool {
        self.0 == 0.0
    }
    fn lt(&self, other: &Self) -> bool {
        self.0 < other.0
    }
}

const ZERO: F64 = F64(0.0);
const ONE: F64 = F64(1.0);
const EPSILON: f64 = 1e-16;

fn unit_properties() -> ThermalProperties<F64> {
    ThermalProperties { rho: ONE, c: ONE, k: ONE }
}

fn layer(d: f64, z0: f64, mu_a: f64, e0: f64) -> Layer<F64> {
    Layer { d: F64(d), z0: F64(z0), mu_a: F64(mu_a), e0: F64(e0) }
}

fn unit_layer() -> Layer<F64> {
    layer(1.0, 0.0, 1.0, 1.0)
}

#[test]
fn large_beam_sanity() {
    let thermal_properties = unit_properties();
    let layer = unit_layer();

    assert_eq!(
        LargeBeam.evaluate_with(64, &thermal_properties, &layer, &ZERO, &ZERO, &ZERO).0,
        5e-1
    );

    let result = LargeBeam.evaluate_with(64, &thermal_properties, &layer, &ONE, &ZERO, &ZERO);
    // reference result: 0.5 * e^-1
    assert!((result.0 - 1.8393972058572116080e-1).abs() < EPSILON);

    let result = LargeBeam.evaluate_with(64, &thermal_properties, &layer, &ONE, &ZERO, &ONE);
    // reference result: 0.5 * e^-1 * e^1 * (erf(1) - erf(-1/sqrt(4) + 1))
    println!("{}", (result.0 - 1.6110045756833416583e-1).abs());
    assert!((result.0 - 1.6110045756833416583e-1).abs() < EPSILON);
}

#[test]
fn flat_top_beam_sanity() {
    let thermal_properties = unit_properties();
    let layer = unit_layer();
    let beam = FlatTopBeam { radius: ONE };

    assert_eq!(beam.evaluate_with(64, &thermal_properties, &layer, &ZERO, &ZERO, &ZERO).0, 5e-1);

    let result = beam.evaluate_with(64, &thermal_properties, &layer, &ONE, &ZERO, &ZERO);
    // reference result: 0.5 * e^-1 * (1 - 0)
    assert!((result.0 - 1.8393972058572116080e-1).abs() < EPSILON);

    let result = beam.evaluate_with(64, &thermal_properties, &layer, &ONE, &ZERO, &ONE);
    // reference result: 0.5 * e^-1 * e^1 * (erf(1) - erf(-1/sqrt(4) + 1)) * (1 - e^(-1/4))
    println!("{}", (result.0 - 3.5635295060953884529e-2).abs());
    assert!((result.0 - 3.5635295060953884529e-2).abs() < EPSILON);
}

#[test]
fn multi_layer_sanity() {
    let thermal_properties = unit_properties();
    let layers = MultiLayer::new(vec![unit_layer()]).expect("Unable to construct a MultiLayer");

    let mut result = layers.evaluate_with(64, &LargeBeam, &thermal_properties, &ONE, &ZERO, &ONE).0;
    result -= LargeBeam.evaluate_with(64, &thermal_properties, &unit_layer(), &ONE, &ZERO, &ONE).0;
    assert!(result < EPSILON);

    let layers = MultiLayer::new(vec![layer(1.0, 0.0, 1.0, 1.0), layer(1.0, 1.0, 1.0, 0.0)])
        .expect("Unable to construct a MultiLayer");

    let thick = layer(2.0, 0.0, 1.0, 1.0);
    let beam = FlatTopBeam { radius: ONE };
    let small = F64(1e-6);

    let mut result = layers.evaluate_with(64, &beam, &thermal_properties, &ZERO, &ZERO, &small).0;
    result -= beam.evaluate_with(64, &thermal_properties, &thick, &ZERO, &ZERO, &small).0;
    assert!(result < EPSILON);
}

#[test]
fn flat_top_beam_outside_radius_at_start_is_zero() {
    let beam = FlatTopBeam { radius: ONE };
    let r = F64(1.5);
    let result = beam.evaluate_with(64, &unit_properties(), &unit_layer(), &ZERO, &r, &ZERO);
    assert_eq!(result.0, 0.0);
    // on the edge the beam still counts as inside
    let result = beam.evaluate_with(64, &unit_properties(), &unit_layer(), &ZERO, &ONE, &ZERO);
    assert_eq!(result.0, 0.5);
}

#[test]
fn flat_top_beam_off_axis_uses_marcum_q() {
    let beam = FlatTopBeam { radius: ONE };
    let r = F64(0.5);
    let tp = unit_properties();
    let result = beam.evaluate_with(64, &tp, &unit_layer(), &ONE, &r, &ONE).0;
    let planar = LargeBeam.evaluate_with(64, &tp, &unit_layer(), &ONE, &r, &ONE).0;
    assert!((result - planar * (1.0 - MARCUM_STAND_IN)).abs() < 1e-16);
    let factor = beam.radial_factor(64, &tp, &r, &ONE).0;
    assert_eq!(factor, 0.75);
}

#[test]
fn flat_top_radial_factor_on_axis() {
    let beam = FlatTopBeam { radius: ONE };
    let factor = beam.radial_factor(64, &unit_properties(), &ZERO, &ONE).0;
    assert!((factor - (1.0 - (-0.25f64).exp())).abs() < 1e-16);
}

#[test]
fn single_layer_stack_matches_direct_evaluation() {
    let tp = unit_properties();
    let stack = MultiLayer::new(vec![unit_layer()]).unwrap();
    let beam = FlatTopBeam { radius: ONE };
    for (z, r, t) in [(0.0, 0.0, 0.0), (0.5, 0.0, 1.0), (1.0, 0.5, 2.0)] {
        let (z, r, t) = (F64(z), F64(r), F64(t));
        assert_eq!(
            stack.evaluate_with(64, &LargeBeam, &tp, &z, &r, &t),
            LargeBeam.evaluate_with(64, &tp, &unit_layer(), &z, &r, &t)
        );
        assert_eq!(
            stack.evaluate_with(64, &beam, &tp, &z, &r, &t),
            beam.evaluate_with(64, &tp, &unit_layer(), &z, &r, &t)
        );
    }
}

#[test]
fn irradiance_propagates_through_the_upper_layer() {
    let tp = unit_properties();
    let top = layer(1.0, 0.0, 1.0, 1.0);
    let below = layer(1.0, 1.0, 1.0, 0.0);
    for input in [vec![top.clone(), below.clone()], vec![below.clone(), top.clone()]] {
        let stack = MultiLayer::new(input).unwrap();
        let layers = stack.layers();
        assert_eq!(layers.len(), 2);
        assert_eq!(layers[0], top);
        assert_eq!(layers[1].z0, ONE);
        assert!((layers[1].e0.0 - (-1.0f64).exp()).abs() < 1e-16);
        let standalone = layer(1.0, 1.0, 1.0, (-1.0f64).exp());
        let z = F64(1.5);
        let t = F64(0.5);
        let direct = LargeBeam.evaluate_with(64, &tp, &standalone, &z, &ZERO, &t).0;
        let from_stack = LargeBeam.evaluate_with(64, &tp, &layers[1], &z, &ZERO, &t).0;
        assert!((direct - from_stack).abs() < 1e-16);
    }
}

#[test]
fn overlapping_layers_are_rejected_in_any_order() {
    let a = layer(1.0, 0.0, 1.0, 1.0);
    let b = layer(1.0, 0.5, 1.0, 1.0);
    assert!(MultiLayer::new(vec![a.clone(), b.clone()]).is_none());
    assert!(MultiLayer::new(vec![b, a]).is_none());
}

#[test]
fn touching_and_gapped_layers_are_accepted() {
    let a = layer(1.0, 0.0, 1.0, 1.0);
    let touching = layer(1.0, 1.0, 1.0, 1.0);
    let gapped = layer(1.0, 3.0, 2.0, 1.0);
    let stack = MultiLayer::new(vec![gapped.clone(), touching.clone(), a.clone()]).unwrap();
    let layers = stack.layers();
    assert_eq!(layers[0], a);
    assert_eq!(layers[1].z0, touching.z0);
    assert_eq!(layers[2].z0, gapped.z0);
    let e1 = (-1.0f64).exp();
    assert!((layers[1].e0.0 - e1).abs() < 1e-16);
    assert!((layers[2].e0.0 - e1 * e1).abs() < 1e-16);
}

#[test]
fn empty_stack_is_accepted_and_evaluates_to_zero() {
    let stack: MultiLayer<F64> = MultiLayer::new(Vec::new()).unwrap();
    assert!(stack.layers().is_empty());
    let result = stack.evaluate_with(64, &LargeBeam, &unit_properties(), &ONE, &ZERO, &ONE);
    assert_eq!(result.0, 0.0);
}

#[test]
fn stack_is_the_sum_of_its_layers() {
    let tp = unit_properties();
    let stack = MultiLayer::new(vec![layer(0.5, 0.0, 2.0, 3.0), layer(1.0, 0.5, 1.0, 0.0), layer(2.0, 2.0, 0.5, 0.0)])
        .unwrap();
    let beam = FlatTopBeam { radius: F64(2.0) };
    let (z, r, t) = (F64(0.75), F64(0.0), F64(0.3));
    let mut expected = 0.0;
    for l in stack.layers() {
        expected += beam.evaluate_with(64, &tp, l, &z, &r, &t).0;
    }
    assert_eq!(stack.evaluate_with(64, &beam, &tp, &z, &r, &t).0, expected);
}

#[test]
fn evaluation_approaches_the_instantaneous_value_on_the_surfaces() {
    let tp = unit_properties();
    let beam = FlatTopBeam { radius: ONE };
    let soon = F64(1e-20);
    for z in [0.0, 1.0] {
        let z = F64(z);
        let at_start = LargeBeam.evaluate_with(64, &tp, &unit_layer(), &z, &ZERO, &ZERO).0;
        let later = LargeBeam.evaluate_with(64, &tp, &unit_layer(), &z, &ZERO, &soon).0;
        assert!((at_start - later).abs() < 1e-8);
        let at_start = beam.evaluate_with(64, &tp, &unit_layer(), &z, &ZERO, &ZERO).0;
        let later = beam.evaluate_with(64, &tp, &unit_layer(), &z, &ZERO, &soon).0;
        assert!((at_start - later).abs() < 1e-8);
    }
}

#[test]
fn inside_the_layer_the_diffusing_solution_starts_at_twice_the_instantaneous_one() {
    let tp = unit_properties();
    let z = F64(0.5);
    let at_start = LargeBeam.evaluate_with(64, &tp, &unit_layer(), &z, &ZERO, &ZERO).0;
    let later = LargeBeam.evaluate_with(64, &tp, &unit_layer(), &z, &ZERO, &F64(1e-20)).0;
    assert!((later - 2.0 * at_start).abs() < 1e-8);
}

/// Midpoint rule with a single panel: the integrand once, at the centre.
struct Midpoint;

impl Quadrature<F64> for Midpoint {
    // Verification-only, never called at run time: a placeholder.
    fn answer(&self, _g: Integrand<F64>, epsilon: F64, _lo: F64, _hi: F64) -> (F64, F64) {
        (epsilon, epsilon)
    }

    fn integrate<F: Fn(F64) -> F64>(&self, f: F, epsilon: &F64, bounds: (&F64, &F64)) -> (F64, F64) {
        let (a, b) = (bounds.0 .0, bounds.1 .0);
        (F64(f(F64((a + b) / 2.0)).0 * (b - a)), *epsilon)
    }
}

#[test]
fn temperature_rise_hands_the_beam_to_the_engine() {
    let tp = unit_properties();
    let (z, r) = (F64(0.5), ZERO);
    let eps = F64(1e-9);
    let (value, error) = temperature_rise(64, &Midpoint, &LargeBeam, &tp, &unit_layer(), &z, &r, &eps, (&ZERO, &F64(2.0)));
    let at_centre = LargeBeam.evaluate_with(64, &tp, &unit_layer(), &z, &r, &ONE).0;
    assert_eq!(value.0, at_centre * 2.0);
    assert_eq!(error.0, 1e-9);
}

#[test]
fn stack_temperature_rise_hands_the_stack_to_the_engine() {
    let tp = unit_properties();
    let stack = MultiLayer::new(vec![layer(1.0, 0.0, 1.0, 1.0), layer(1.0, 1.0, 1.0, 0.0)]).unwrap();
    let beam = FlatTopBeam { radius: ONE };
    let (z, r) = (F64(1.5), ZERO);
    let eps = F64(1e-9);
    let (value, _) = stack.temperature_rise(64, &Midpoint, &beam, &tp, &z, &r, &eps, (&ONE, &F64(3.0)));
    let at_centre = stack.evaluate_with(64, &beam, &tp, &z, &r, &F64(2.0)).0;
    assert_eq!(value.0, at_centre * 2.0);
}
