use frame_pallets::weight::Weight;
use frame_pallets::weights::{SubstrateWeight, WeightInfo, WeightMetaInfo};

#[test]
fn substrate_weights_are_the_benchmarked_times() {
    type W = SubstrateWeight<()>;
    assert_eq!(W::service_page_base(), Weight::from_ref_time(86_000));
    assert_eq!(W::service_queue_base(), Weight::from_ref_time(112_000));
    assert_eq!(W::service_page_process_message(), Weight::from_ref_time(112_000));
    assert_eq!(W::bump_service_head(), Weight::from_ref_time(112_000));
    assert_eq!(W::service_page_item(), Weight::from_ref_time(112_000));
    assert_eq!(W::service_page_base().proof_size, 0);
}

#[test]
fn unit_weights_match_substrate_weights() {
    type W = SubstrateWeight<()>;
    assert_eq!(<() as WeightInfo>::service_page_base(), W::service_page_base());
    assert_eq!(<() as WeightInfo>::service_queue_base(), W::service_queue_base());
    assert_eq!(
        <() as WeightInfo>::service_page_process_message(),
        W::service_page_process_message()
    );
    assert_eq!(<() as WeightInfo>::bump_service_head(), W::bump_service_head());
    assert_eq!(<() as WeightInfo>::service_page_item(), W::service_page_item());
}

#[test]
fn visit_weight_functions_names_each_function_in_order() {
    let visited = WeightMetaInfo::<SubstrateWeight<()>>::visit_weight_functions(|name, w| (name, w));
    assert_eq!(
        visited,
        vec![
            ("service_page_base", Weight::from_ref_time(86_000)),
            ("service_queue_base", Weight::from_ref_time(112_000)),
            ("service_page_process_message", Weight::from_ref_time(112_000)),
            ("bump_service_head", Weight::from_ref_time(112_000)),
            ("service_page_item", Weight::from_ref_time(112_000)),
        ]
    );
}

#[test]
fn visit_weight_functions_collects_what_the_callback_returns() {
    let times = WeightMetaInfo::<()>::visit_weight_functions(|_, w| w.ref_time / 1_000);
    assert_eq!(times, vec![86, 112, 112, 112, 112]);
}

#[test]
fn weight_constructors() {
    assert!(Weight::zero().is_zero());
    assert!(Weight::from_ref_time(0).is_zero());
    assert!(!Weight::from_ref_time(1).is_zero());
    assert!(!Weight::from_parts(0, 1).is_zero());
    assert_eq!(Weight::from_parts(5, 6), Weight { ref_time: 5, proof_size: 6 });
    assert_eq!(Weight::from_ref_time(7), Weight::from_parts(7, 0));
}
