//! A stack of layers, sorted by depth, with irradiance carried downward.
use crate::beam::{Beam, Layer, ThermalProperties};
use crate::integration::Quadrature;
use crate::numeric::{nonzero_number, valid_precision, Numeric};
use vstd::prelude::*;

verus! {

broadcast use {
    vstd::seq_lib::to_multiset_build,
    vstd::seq_lib::to_multiset_insert,
    vstd::seq_lib::to_multiset_remove,
    vstd::seq_lib::to_multiset_contains,
    vstd::seq_lib::to_multiset_len,
    vstd::multiset::group_multiset_axioms,
};

/// Multiple layers of tissue.
#[derive(Clone, Debug, PartialEq)]
pub struct MultiLayer<T> {
    /// The layers, sorted by depth, with the propagated irradiance.
    layers: Vec<Layer<T>>,
}

/// The layer's values are held at precisions the arithmetic accepts.
pub open spec fn precisions_ok<T: Numeric>(l: Layer<T>) -> bool {
    &&& valid_precision(T::precision_of(l.d) as int)
    &&& valid_precision(T::precision_of(l.z0) as int)
    &&& valid_precision(T::precision_of(l.e0) as int)
}

/// No layer starts strictly above the one before it.
pub open spec fn sorted_by_depth<T: Numeric>(s: Seq<Layer<T>>) -> bool {
    forall|i: int| 1 <= i < s.len() ==> !T::below(#[trigger] s[i].z0, s[i - 1].z0)
}

/// Depth of the bottom surface, `z0 + d`, at `pz` bits.
pub open spec fn bottom_of<T: Numeric>(l: Layer<T>, pz: nat) -> T {
    T::sum(T::rounded(l.z0, pz), l.d, pz)
}

/// Beer's-law transmission `exp(-d * mu_a)` through the layer, at `pd` bits.
pub open spec fn transmission<T: Numeric>(l: Layer<T>, pd: nat) -> T {
    T::exponential(T::negation(T::product(T::rounded(l.d, pd), l.mu_a, pd)), pd)
}

/// The irradiance leaving the bottom of layer `i` of the sorted stack `s`;
/// the stack's top layer sets the working precisions.
pub open spec fn carried<T: Numeric>(s: Seq<Layer<T>>, i: int) -> T
    decreases i,
{
    let pd = T::precision_of(s[0].d);
    let pe = T::precision_of(s[0].e0);
    if i <= 0 {
        T::product(T::rounded(s[0].e0, pe), transmission(s[0], pd), pe)
    } else {
        T::product(carried(s, i - 1), transmission(s[i], pd), pe)
    }
}

/// Some layer of the sorted stack starts above the bottom of the one before it.
pub open spec fn overlapping<T: Numeric>(s: Seq<Layer<T>>) -> bool {
    exists|i: int|
        1 <= i < s.len() && T::below(
            #[trigger] s[i].z0,
            bottom_of(s[i - 1], T::precision_of(s[0].z0)),
        )
}

/// Layer `i` of the sorted stack `s` with its irradiance replaced by what
/// reaches it from above; the top layer keeps its own.
pub open spec fn propagated_layer<T: Numeric>(s: Seq<Layer<T>>, i: int) -> Layer<T> {
    if i == 0 {
        s[0]
    } else {
        Layer {
            d: s[i].d,
            z0: s[i].z0,
            mu_a: s[i].mu_a,
            e0: T::rounded(carried(s, i - 1), T::precision_of(s[i].e0)),
        }
    }
}

pub open spec fn propagated<T: Numeric>(s: Seq<Layer<T>>) -> Seq<Layer<T>> {
    Seq::new(s.len(), |i: int| propagated_layer(s, i))
}

/// A stack as it is kept: sorted by depth, no layer starting above the
/// bottom of the one before it, and every layer below the top holding the
/// irradiance carried down to it, at its own precision.
pub open spec fn stack_invariant<T: Numeric>(s: Seq<Layer<T>>) -> bool {
    &&& sorted_by_depth(s)
    &&& !overlapping(s)
    &&& forall|i: int|
        1 <= i < s.len() ==> (#[trigger] s[i]).e0 == T::rounded(carried(s, i - 1), T::precision_of(s[i].e0))
}

proof fn lemma_carried_propagated<T: Numeric>(s: Seq<Layer<T>>, i: int)
    requires
        0 <= i < s.len(),
    ensures
        carried(propagated(s), i) == carried(s, i),
    decreases i,
{
    let q = propagated(s);
    assert(q[0] == s[0]);
    assert(q[i].d == s[i].d && q[i].mu_a == s[i].mu_a);
    if i > 0 {
        lemma_carried_propagated(s, i - 1);
    }
}

/// Sorting and carrying the irradiance down yields a stack that keeps the
/// invariant, whenever the sorted layers do not overlap.
pub proof fn propagated_keeps_invariant<T: Numeric>(s: Seq<Layer<T>>)
    requires
        sorted_by_depth(s),
        !overlapping(s),
    ensures
        stack_invariant(propagated(s)),
{
    let q = propagated(s);
    assert forall|i: int| 0 <= i < s.len() implies (#[trigger] q[i]).z0 == s[i].z0 && q[i].d == s[i].d
        && q[i].mu_a == s[i].mu_a by {}
    assert forall|i: int| 1 <= i < q.len() implies !T::below(#[trigger] q[i].z0, q[i - 1].z0) by {
        assert(q[i].z0 == s[i].z0 && q[i - 1].z0 == s[i - 1].z0);
    }
    assert forall|i: int| 1 <= i < q.len() implies !T::below(
        #[trigger] q[i].z0,
        bottom_of(q[i - 1], T::precision_of(q[0].z0)),
    ) by {
        assert(q[i].z0 == s[i].z0);
        assert(q[i - 1].z0 == s[i - 1].z0 && q[i - 1].d == s[i - 1].d && q[0].z0 == s[0].z0);
        assert(!T::below(s[i].z0, bottom_of(s[i - 1], T::precision_of(s[0].z0))));
    }
    assert forall|i: int| 1 <= i < q.len() implies (#[trigger] q[i]).e0 == T::rounded(
        carried(q, i - 1),
        T::precision_of(q[i].e0),
    ) by {
        lemma_carried_propagated(s, i - 1);
        T::rounded_precision(carried(s, i - 1), T::precision_of(s[i].e0));
    }
}

/// The sum, in order, of the beam's rise over each layer of `s`, at `p` bits.
pub open spec fn total_rise<T: Numeric, B: Beam<T>>(
    beam: B,
    p: nat,
    tp: ThermalProperties<T>,
    s: Seq<Layer<T>>,
    z: T,
    r: T,
    t: T,
) -> T
    decreases s.len(),
{
    if s.len() == 0 {
        T::integer(0, p)
    } else {
        T::sum(total_rise(beam, p, tp, s.drop_last(), z, r, t), beam.rise(p, tp, s.last(), z, r, t), p)
    }
}

/// A stack made of one layer holds that layer unchanged, and under any beam
/// it evaluates to that layer's own rise; where that rise is a zero, to a
/// zero (whose sign may differ). A NaN rise gives a NaN, of a sign left open.
pub proof fn single_layer_stack<T: Numeric, B: Beam<T>>(
    beam: B,
    p: nat,
    tp: ThermalProperties<T>,
    layer: Layer<T>,
    s: Seq<Layer<T>>,
    z: T,
    r: T,
    t: T,
)
    requires
        s.to_multiset() == seq![layer].to_multiset(),
    ensures
        propagated(s) == seq![layer],
        nonzero_number(beam.rise(p, tp, layer, z, r, t), p) ==> total_rise(beam, p, tp, propagated(s), z, r, t)
            == beam.rise(p, tp, layer, z, r, t),
        T::zero_valued(beam.rise(p, tp, layer, z, r, t)) ==> T::zero_valued(
            total_rise(beam, p, tp, propagated(s), z, r, t),
        ),
{
    assert(s.len() == s.to_multiset().len());
    assert(seq![layer].to_multiset().len() == 1);
    assert(s.contains(s[0]));
    assert(s.to_multiset().count(s[0]) > 0);
    assert(seq![layer].contains(s[0]));
    assert(s =~= seq![layer]);
    assert(propagated(s) =~= seq![layer]);
    assert(seq![layer].drop_last() =~= Seq::<Layer<T>>::empty());
    assert(seq![layer].last() == layer);
    assert(total_rise(beam, p, tp, Seq::<Layer<T>>::empty(), z, r, t) == T::integer(0, p));
    assert(total_rise(beam, p, tp, seq![layer], z, r, t) == T::sum(
        T::integer(0, p),
        beam.rise(p, tp, layer, z, r, t),
        p,
    ));
    beam.rise_precision(p, tp, layer, z, r, t);
    T::zero_sum_exact(beam.rise(p, tp, layer, z, r, t), p);
}

/// On a stack made of one layer whose rise is never a zero nor NaN, integrating the
/// stack hands the engine the same integrand as integrating the layer, so
/// both get the same answer.
pub proof fn single_layer_stack_integrates_alike<T: Numeric, B: Beam<T>, Q: Quadrature<T>>(
    quadrature: Q,
    beam: B,
    p: nat,
    tp: ThermalProperties<T>,
    layer: Layer<T>,
    s: Seq<Layer<T>>,
    z: T,
    r: T,
    epsilon: T,
    lo: T,
    hi: T,
)
    requires
        s.to_multiset() == seq![layer].to_multiset(),
        forall|t: T| nonzero_number(#[trigger] beam.rise(p, tp, layer, z, r, t), p),
    ensures
        quadrature.answer((|t: T| total_rise(beam, p, tp, propagated(s), z, r, t)), epsilon, lo, hi)
            == quadrature.answer((|t: T| beam.rise(p, tp, layer, z, r, t)), epsilon, lo, hi),
{
    let stack = |t: T| total_rise(beam, p, tp, propagated(s), z, r, t);
    let single = |t: T| beam.rise(p, tp, layer, z, r, t);
    assert forall|t: T| #[trigger] stack(t) == single(t) by {
        assert(nonzero_number(beam.rise(p, tp, layer, z, r, t), p));
        single_layer_stack(beam, p, tp, layer, s, z, r, t);
    }
    assert(stack =~= single);
}

/// Two layers where the deeper one starts above the bottom of the shallower
/// one overlap in whichever order they are given: every depth-sorted
/// arrangement of them is rejected.
pub proof fn two_layers_overlap<T: Numeric>(a: Layer<T>, b: Layer<T>, input: Seq<Layer<T>>, s: Seq<Layer<T>>)
    requires
        T::below(a.z0, b.z0),
        T::below(b.z0, bottom_of(a, T::precision_of(a.z0))),
        input == seq![a, b] || input == seq![b, a],
        s.to_multiset() == input.to_multiset(),
        sorted_by_depth(s),
    ensures
        overlapping(s),
{
    T::below_asymmetric(a.z0, b.z0);
    assert(a != b);
    assert(s.len() == s.to_multiset().len());
    assert(input.len() == input.to_multiset().len());
    assert(s.len() == 2);
    assert(input.to_multiset().count(a) > 0 && input.to_multiset().count(b) > 0);
    assert(s.contains(a) && s.contains(b));
    if s[0] == b {
        assert(s[1] == a);
        assert(!T::below(s[1].z0, s[0].z0));
    }
    assert(s[0] == a && s[1] == b);
    assert(T::below(s[1].z0, bottom_of(s[0], T::precision_of(s[0].z0))));
}

fn bottom<T: Numeric>(l: &Layer<T>, pz: u64) -> (r: T)
    requires
        valid_precision(pz as int),
    ensures
        r == bottom_of(*l, pz as nat),
{
    l.z0.round(pz).add(&l.d, pz)
}

fn transmission_through<T: Numeric>(l: &Layer<T>, pd: u64) -> (r: T)
    requires
        valid_precision(pd as int),
    ensures
        r == transmission(*l, pd as nat),
{
    l.d.round(pd).mul(&l.mu_a, pd).neg().exp(pd)
}

/// Sorts the layers by the depth of their top surface.
fn sort_by_depth<T: Numeric>(input_layers: Vec<Layer<T>>) -> (sorted: Vec<Layer<T>>)
    ensures
        sorted@.to_multiset() == input_layers@.to_multiset(),
        sorted_by_depth(sorted@),
{
    let mut input = input_layers;
    let mut sorted: Vec<Layer<T>> = Vec::new();
    while input.len() > 0
        invariant
            sorted@.to_multiset().add(input@.to_multiset()) == input_layers@.to_multiset(),
            sorted_by_depth(sorted@),
        decreases input.len(),
    {
        let ghost before = input@;
        let x = input.pop().unwrap();
        assert(before == input@.push(x));
        let mut j = sorted.len();
        loop
            invariant
                j <= sorted.len(),
                forall|k: int| j <= k < sorted.len() ==> T::below(x.z0, #[trigger] sorted@[k].z0),
            ensures
                j <= sorted.len(),
                forall|k: int| j <= k < sorted.len() ==> T::below(x.z0, #[trigger] sorted@[k].z0),
                j == 0 || !T::below(x.z0, sorted@[j - 1].z0),
            decreases j,
        {
            if j == 0 {
                break;
            }
            if !x.z0.lt(&sorted[j - 1].z0) {
                break;
            }
            j -= 1;
        }
        let ghost old_sorted = sorted@;
        proof {
            if j < old_sorted.len() {
                T::below_asymmetric(x.z0, old_sorted[j as int].z0);
            }
        }
        sorted.insert(j, x);
        assert forall|i: int| 1 <= i < sorted@.len() implies !T::below(
            #[trigger] sorted@[i].z0,
            sorted@[i - 1].z0,
        ) by {
            if i < j {
                assert(sorted@[i] == old_sorted[i] && sorted@[i - 1] == old_sorted[i - 1]);
            } else if i == j {
            } else if i == j + 1 {
                T::below_asymmetric(x.z0, old_sorted[j as int].z0);
            } else {
                assert(sorted@[i] == old_sorted[i - 1] && sorted@[i - 1] == old_sorted[i - 2]);
            }
        }
    }
    sorted
}

impl<T: Numeric> MultiLayer<T> {
    pub closed spec fn layers_spec(&self) -> Seq<Layer<T>> {
        self.layers@
    }

    /// The stack keeps its invariant for as long as it lives.
    pub open spec fn wf(&self) -> bool {
        stack_invariant(self.layers_spec())
    }

    /// The layers, sorted by depth, with the propagated irradiance.
    pub fn layers(&self) -> (r: &Vec<Layer<T>>)
        ensures
            r@ == self.layers_spec(),
    {
        &self.layers
    }

    /// Builds a stack from layers in any order. They are sorted by depth;
    /// the top layer keeps its irradiance and each one below receives what
    /// leaves the bottom of the one above (Beer's law). Overlapping layers
    /// give `None`.
    pub fn new(input_layers: Vec<Layer<T>>) -> (r: Option<Self>)
        requires
            forall|i: int| 0 <= i < input_layers.len() ==> precisions_ok(#[trigger] input_layers@[i]),
        ensures
            exists|s: Seq<Layer<T>>|
                #![trigger s.to_multiset()]
                {
                    &&& s.to_multiset() == input_layers@.to_multiset()
                    &&& sorted_by_depth(s)
                    &&& match r {
                        Some(m) => !overlapping(s) && m.layers_spec() == propagated(s) && m.wf(),
                        None => overlapping(s),
                    }
                },
    {
        let ghost input = input_layers@;
        let mut sorted = sort_by_depth(input_layers);
        let ghost s = sorted@;
        if sorted.len() == 0 {
            assert(propagated(s) =~= s);
            assert(s.to_multiset() == input.to_multiset());
            proof {
                propagated_keeps_invariant(s);
            }
            return Some(MultiLayer { layers: sorted });
        }
        proof {
            assert forall|k: int| 0 <= k < s.len() implies precisions_ok(#[trigger] s[k]) by {
                assert(s.contains(s[k]));
                assert(s.to_multiset().count(s[k]) > 0);
                assert(input.contains(s[k]));
            }
        }
        let pz = sorted[0].z0.prec();
        let pd = sorted[0].d.prec();
        let pe = sorted[0].e0.prec();
        let mut depth = bottom(&sorted[0], pz);
        let mut irradiance = sorted[0].e0.round(pe).mul(&transmission_through(&sorted[0], pd), pe);
        let first = sorted.remove(0);
        let mut layers: Vec<Layer<T>> = Vec::new();
        layers.push(first);
        let mut i: usize = 1;
        while sorted.len() > 0
            invariant
                1 <= i <= s.len(),
                s.len() <= usize::MAX,
                s.to_multiset() == input.to_multiset(),
                input == input_layers@,
                sorted_by_depth(s),
                sorted@ == s.subrange(i as int, s.len() as int),
                layers@ == propagated(s).subrange(0, i as int),
                depth == bottom_of(s[i - 1], pz as nat),
                irradiance == carried(s, i - 1),
                pz as nat == T::precision_of(s[0].z0),
                pd as nat == T::precision_of(s[0].d),
                pe as nat == T::precision_of(s[0].e0),
                valid_precision(pz as int),
                valid_precision(pd as int),
                valid_precision(pe as int),
                forall|k: int| 1 <= k < i ==> !T::below(#[trigger] s[k].z0, bottom_of(s[k - 1], pz as nat)),
                forall|k: int| 0 <= k < s.len() ==> precisions_ok(#[trigger] s[k]),
            decreases sorted.len(),
        {
            assert(i < s.len());
            let layer = sorted.remove(0);
            assert(layer == s[i as int]);
            if layer.z0.lt(&depth) {
                assert(T::below(s[i as int].z0, bottom_of(s[i - 1], T::precision_of(s[0].z0))));
                assert(overlapping(s));
                assert(s.to_multiset() == input.to_multiset());
                return None;
            }
            let e0 = irradiance.round(layer.e0.prec());
            depth = bottom(&layer, pz);
            irradiance = irradiance.mul(&transmission_through(&layer, pd), pe);
            layers.push(Layer { d: layer.d, z0: layer.z0, mu_a: layer.mu_a, e0 });
            assert(layers@ =~= propagated(s).subrange(0, i + 1));
            i += 1;
        }
        assert(layers@ =~= propagated(s));
        assert(s.to_multiset() == input.to_multiset());
        proof {
            propagated_keeps_invariant(s);
        }
        Some(MultiLayer { layers })
    }

    /// Runs the beam over every layer and adds the contributions, in order
    /// of depth, starting from zero at the working precision.
    pub fn evaluate_with<B: Beam<T>>(
        &self,
        precision: u64,
        beam: &B,
        thermal_properties: &ThermalProperties<T>,
        z: &T,
        r: &T,
        t: &T,
    ) -> (res: T)
        requires
            self.wf(),
            valid_precision(precision as int),
        ensures
            res == total_rise(
                *beam,
                precision as nat,
                *thermal_properties,
                self.layers_spec(),
                *z,
                *r,
                *t,
            ),
    {
        let mut sum = T::from_i32(0, precision);
        let mut i: usize = 0;
        while i < self.layers.len()
            invariant
                i <= self.layers@.len(),
                valid_precision(precision as int),
                sum == total_rise(
                    *beam,
                    precision as nat,
                    *thermal_properties,
                    self.layers@.subrange(0, i as int),
                    *z,
                    *r,
                    *t,
                ),
            decreases self.layers@.len() - i,
        {
            let contribution = beam.evaluate_with(precision, thermal_properties, &self.layers[i], z, r, t);
            assert(self.layers@.subrange(0, i + 1).drop_last() =~= self.layers@.subrange(0, i as int));
            sum = sum.add(&contribution, precision);
            i += 1;
        }
        assert(self.layers@.subrange(0, i as int) =~= self.layers@);
        sum
    }

    /// Integrates the stack's rise across the times in `bounds`: the engine
    /// receives `t |-> self.evaluate_with(precision, ..., t)` with everything
    /// else held fixed, and its answer is returned as it is.
    pub fn temperature_rise<Q: Quadrature<T>, B: Beam<T>>(
        &self,
        precision: u64,
        quadrature: &Q,
        beam: &B,
        thermal_properties: &ThermalProperties<T>,
        z: &T,
        r: &T,
        epsilon: &T,
        bounds: (&T, &T),
    ) -> (res: (T, T))
        requires
            self.wf(),
            valid_precision(precision as int),
        ensures
            res == quadrature.answer(
                (|t: T|
                    total_rise(
                        *beam,
                        precision as nat,
                        *thermal_properties,
                        self.layers_spec(),
                        *z,
                        *r,
                        t,
                    )),
                *epsilon,
                *bounds.0,
                *bounds.1,
            ),
    {
        let rise_at = |t: T| -> (v: T)
            requires
                self.wf(),
                valid_precision(precision as int),
            ensures
                v == total_rise(*beam, precision as nat, *thermal_properties, self.layers_spec(), *z, *r, t),
            {
                let v = self.evaluate_with(precision, beam, thermal_properties, z, r, &t);
                v
            };
        quadrature.integrate(rise_at, epsilon, bounds)
    }
}

} // verus!
