//! Weight functions of the message-queue pallet.

use crate::weight::Weight;
use core::marker::PhantomData;
use vstd::prelude::*;

verus! {

/// The weight of `ref_time` picoseconds of execution and no proof size.
pub open spec fn ref_time_weight(ref_time: u64) -> Weight {
    Weight { ref_time, proof_size: 0 }
}

/// Weight functions needed for the message-queue pallet.
pub trait WeightInfo {
    spec fn spec_service_page_base() -> Weight;

    spec fn spec_service_queue_base() -> Weight;

    spec fn spec_service_page_process_message() -> Weight;

    spec fn spec_bump_service_head() -> Weight;

    spec fn spec_service_page_item() -> Weight;

    fn service_page_base() -> (w: Weight)
        ensures
            w == Self::spec_service_page_base(),
    ;

    fn service_queue_base() -> (w: Weight)
        ensures
            w == Self::spec_service_queue_base(),
    ;

    fn service_page_process_message() -> (w: Weight)
        ensures
            w == Self::spec_service_page_process_message(),
    ;

    fn bump_service_head() -> (w: Weight)
        ensures
            w == Self::spec_bump_service_head(),
    ;

    fn service_page_item() -> (w: Weight)
        ensures
            w == Self::spec_service_page_item(),
    ;
}

/// The weight functions of `W` in declaration order, each by name with its weight.
pub open spec fn weight_functions<W: WeightInfo>() -> Seq<(&'static str, Weight)> {
    seq![
        ("service_page_base", W::spec_service_page_base()),
        ("service_queue_base", W::spec_service_queue_base()),
        ("service_page_process_message", W::spec_service_page_process_message()),
        ("bump_service_head", W::spec_bump_service_head()),
        ("service_page_item", W::spec_service_page_item()),
    ]
}

/// `res` holds, in order, what `f` returned for each weight function of `W`.
pub open spec fn visited<W: WeightInfo, F: Fn(&'static str, Weight) -> R, R>(
    f: F,
    res: Seq<R>,
) -> bool {
    &&& res.len() == weight_functions::<W>().len()
    &&& forall|i: int|
        0 <= i < res.len() ==> call_ensures(
            f,
            (weight_functions::<W>()[i].0, weight_functions::<W>()[i].1),
            #[trigger] res[i],
        )
}

/// `f` is a pure callback that computes `fs`: whatever it returns is `fs` of its
/// arguments.
pub open spec fn computes<F: Fn(&'static str, Weight) -> R, R>(
    f: F,
    fs: spec_fn(&'static str, Weight) -> R,
) -> bool {
    forall|name: &'static str, w: Weight, r: R| #[trigger] call_ensures(f, (name, w), r) ==> r == fs(name, w)
}

/// Names the weight functions of a [`WeightInfo`].
pub struct WeightMetaInfo<W>(PhantomData<W>);

impl<W: WeightInfo> WeightMetaInfo<W> {
    /// Calls `f` once for each weight function, in declaration order, with the
    /// function's name and its weight, and collects what `f` returns.
    pub fn visit_weight_functions<F: Fn(&'static str, Weight) -> R, R>(f: F) -> (res: Vec<R>)
        requires
            forall|i: int|
                0 <= i < weight_functions::<W>().len() ==> call_requires(
                    f,
                    (#[trigger] weight_functions::<W>()[i].0, weight_functions::<W>()[i].1),
                ),
        ensures
            visited::<W, F, R>(f, res@),
            res@.len() == 5,
            call_ensures(f, ("service_page_base", W::spec_service_page_base()), res@[0]),
            call_ensures(f, ("service_queue_base", W::spec_service_queue_base()), res@[1]),
            call_ensures(
                f,
                ("service_page_process_message", W::spec_service_page_process_message()),
                res@[2],
            ),
            call_ensures(f, ("bump_service_head", W::spec_bump_service_head()), res@[3]),
            call_ensures(f, ("service_page_item", W::spec_service_page_item()), res@[4]),
    {
        let ghost wf = weight_functions::<W>();
        assert(call_requires(f, (wf[0].0, wf[0].1)));
        assert(call_requires(f, (wf[1].0, wf[1].1)));
        assert(call_requires(f, (wf[2].0, wf[2].1)));
        assert(call_requires(f, (wf[3].0, wf[3].1)));
        assert(call_requires(f, (wf[4].0, wf[4].1)));
        let mut res: Vec<R> = Vec::new();
        res.push(f("service_page_base", W::service_page_base()));
        res.push(f("service_queue_base", W::service_queue_base()));
        res.push(f("service_page_process_message", W::service_page_process_message()));
        res.push(f("bump_service_head", W::bump_service_head()));
        res.push(f("service_page_item", W::service_page_item()));
        res
    }
}

/// Every visit pairs each name with the weight of the function of that very name,
/// in declaration order: the call for `service_page_base` gets what
/// `W::service_page_base()` returns, and so on for all five functions.
pub proof fn lemma_visit_names_own_weight<W: WeightInfo, F: Fn(&'static str, Weight) -> R, R>(
    f: F,
    res: Seq<R>,
)
    requires
        visited::<W, F, R>(f, res),
    ensures
        res.len() == 5,
        call_ensures(f, ("service_page_base", W::spec_service_page_base()), res[0]),
        call_ensures(f, ("service_queue_base", W::spec_service_queue_base()), res[1]),
        call_ensures(
            f,
            ("service_page_process_message", W::spec_service_page_process_message()),
            res[2],
        ),
        call_ensures(f, ("bump_service_head", W::spec_bump_service_head()), res[3]),
        call_ensures(f, ("service_page_item", W::spec_service_page_item()), res[4]),
{
    assert(call_ensures(f, (weight_functions::<W>()[0].0, weight_functions::<W>()[0].1), res[0]));
    assert(call_ensures(f, (weight_functions::<W>()[1].0, weight_functions::<W>()[1].1), res[1]));
    assert(call_ensures(f, (weight_functions::<W>()[2].0, weight_functions::<W>()[2].1), res[2]));
    assert(call_ensures(f, (weight_functions::<W>()[3].0, weight_functions::<W>()[3].1), res[3]));
    assert(call_ensures(f, (weight_functions::<W>()[4].0, weight_functions::<W>()[4].1), res[4]));
}

/// With a pure callback, the visit returns at each place the callback's value on
/// that place's name and the weight of the function of that name; so two weight
/// types that agree on one function's weight give visits that agree at its place.
pub proof fn lemma_visit_tracks_each_weight<
    W1: WeightInfo,
    W2: WeightInfo,
    F: Fn(&'static str, Weight) -> R,
    R,
>(f: F, fs: spec_fn(&'static str, Weight) -> R, res1: Seq<R>, res2: Seq<R>)
    requires
        computes(f, fs),
        visited::<W1, F, R>(f, res1),
        visited::<W2, F, R>(f, res2),
    ensures
        res1[0] == fs("service_page_base", W1::spec_service_page_base()),
        res1[1] == fs("service_queue_base", W1::spec_service_queue_base()),
        res1[2] == fs("service_page_process_message", W1::spec_service_page_process_message()),
        res1[3] == fs("bump_service_head", W1::spec_bump_service_head()),
        res1[4] == fs("service_page_item", W1::spec_service_page_item()),
        W1::spec_service_page_base() == W2::spec_service_page_base() ==> res1[0] == res2[0],
        W1::spec_service_queue_base() == W2::spec_service_queue_base() ==> res1[1] == res2[1],
        W1::spec_service_page_process_message() == W2::spec_service_page_process_message()
            ==> res1[2] == res2[2],
        W1::spec_bump_service_head() == W2::spec_bump_service_head() ==> res1[3] == res2[3],
        W1::spec_service_page_item() == W2::spec_service_page_item() ==> res1[4] == res2[4],
{
    lemma_visit_names_own_weight::<W1, F, R>(f, res1);
    lemma_visit_names_own_weight::<W2, F, R>(f, res2);
}

/// Visiting with a pure callback gives the callback's value on each weight
/// function, in declaration order.
pub proof fn lemma_visit_pure<W: WeightInfo, F: Fn(&'static str, Weight) -> R, R>(
    f: F,
    fs: spec_fn(&'static str, Weight) -> R,
    res: Seq<R>,
)
    requires
        computes(f, fs),
        visited::<W, F, R>(f, res),
    ensures
        res == weight_functions::<W>().map_values(|p: (&'static str, Weight)| fs(p.0, p.1)),
{
    let expected = weight_functions::<W>().map_values(|p: (&'static str, Weight)| fs(p.0, p.1));
    assert forall|i: int| 0 <= i < res.len() implies res[i] == expected[i] by {
        let p = weight_functions::<W>()[i];
        assert(call_ensures(f, (p.0, p.1), res[i]));
    }
    assert(res =~= expected);
}

/// Visiting with a callback that applies `g` after `f` gives the visit with `f`
/// with `g` applied to each element, when both callbacks are pure.
pub proof fn lemma_visit_compose<
    W: WeightInfo,
    F: Fn(&'static str, Weight) -> R,
    H: Fn(&'static str, Weight) -> S,
    R,
    S,
>(
    f: F,
    fs: spec_fn(&'static str, Weight) -> R,
    g: spec_fn(R) -> S,
    h: H,
    res_f: Seq<R>,
    res_h: Seq<S>,
)
    requires
        computes(f, fs),
        computes(h, |name: &'static str, w: Weight| g(fs(name, w))),
        visited::<W, F, R>(f, res_f),
        visited::<W, H, S>(h, res_h),
    ensures
        res_h == res_f.map_values(g),
{
    lemma_visit_pure::<W, F, R>(f, fs, res_f);
    lemma_visit_pure::<W, H, S>(h, |name: &'static str, w: Weight| g(fs(name, w)), res_h);
    assert(res_h =~= res_f.map_values(g));
}

/// Visiting the Substrate weights and visiting the `()` weights with the same pure
/// callback give the same result, whatever the runtime.
pub proof fn lemma_visit_substrate_matches_unit<T, F: Fn(&'static str, Weight) -> R, R>(
    f: F,
    fs: spec_fn(&'static str, Weight) -> R,
    res_substrate: Seq<R>,
    res_unit: Seq<R>,
)
    requires
        computes(f, fs),
        visited::<SubstrateWeight<T>, F, R>(f, res_substrate),
        visited::<(), F, R>(f, res_unit),
    ensures
        res_substrate == res_unit,
{
    lemma_visit_pure::<SubstrateWeight<T>, F, R>(f, fs, res_substrate);
    lemma_visit_pure::<(), F, R>(f, fs, res_unit);
    assert(weight_functions::<SubstrateWeight<T>>() =~= weight_functions::<()>());
}

/// Weights for the message-queue pallet on the Substrate node and its
/// recommended hardware.
pub struct SubstrateWeight<T>(PhantomData<T>);

impl<T> WeightInfo for SubstrateWeight<T> {
    open spec fn spec_service_page_base() -> Weight {
        ref_time_weight(86_000)
    }

    open spec fn spec_service_queue_base() -> Weight {
        ref_time_weight(112_000)
    }

    open spec fn spec_service_page_process_message() -> Weight {
        ref_time_weight(112_000)
    }

    open spec fn spec_bump_service_head() -> Weight {
        ref_time_weight(112_000)
    }

    open spec fn spec_service_page_item() -> Weight {
        ref_time_weight(112_000)
    }

    fn service_page_base() -> (w: Weight) {
        // Minimum execution time: 86 nanoseconds.
        Weight::from_ref_time(86_000)
    }

    fn service_queue_base() -> (w: Weight) {
        // Minimum execution time: 112 nanoseconds.
        Weight::from_ref_time(112_000)
    }

    fn service_page_process_message() -> (w: Weight) {
        Weight::from_ref_time(112_000)
    }

    fn bump_service_head() -> (w: Weight) {
        Weight::from_ref_time(112_000)
    }

    fn service_page_item() -> (w: Weight) {
        Weight::from_ref_time(112_000)
    }
}

/// The same weights, for backwards compatibility and tests.
impl WeightInfo for () {
    open spec fn spec_service_page_base() -> Weight {
        ref_time_weight(86_000)
    }

    open spec fn spec_service_queue_base() -> Weight {
        ref_time_weight(112_000)
    }

    open spec fn spec_service_page_process_message() -> Weight {
        ref_time_weight(112_000)
    }

    open spec fn spec_bump_service_head() -> Weight {
        ref_time_weight(112_000)
    }

    open spec fn spec_service_page_item() -> Weight {
        ref_time_weight(112_000)
    }

    fn service_page_base() -> (w: Weight) {
        // Minimum execution time: 86 nanoseconds.
        Weight::from_ref_time(86_000)
    }

    fn service_queue_base() -> (w: Weight) {
        // Minimum execution time: 112 nanoseconds.
        Weight::from_ref_time(112_000)
    }

    fn service_page_process_message() -> (w: Weight) {
        Weight::from_ref_time(112_000)
    }

    fn bump_service_head() -> (w: Weight) {
        Weight::from_ref_time(112_000)
    }

    fn service_page_item() -> (w: Weight) {
        Weight::from_ref_time(112_000)
    }
}

/// The weights of the Substrate node and those of `()` are the same.
pub proof fn lemma_substrate_weights_match_unit<T>()
    ensures
        SubstrateWeight::<T>::spec_service_page_base() == <() as WeightInfo>::spec_service_page_base(),
        SubstrateWeight::<T>::spec_service_queue_base()
            == <() as WeightInfo>::spec_service_queue_base(),
        SubstrateWeight::<T>::spec_service_page_process_message()
            == <() as WeightInfo>::spec_service_page_process_message(),
        SubstrateWeight::<T>::spec_bump_service_head() == <() as WeightInfo>::spec_bump_service_head(),
        SubstrateWeight::<T>::spec_service_page_item() == <() as WeightInfo>::spec_service_page_item(),
{
}

} // verus!
