use frame_pallets::pool_bench::{
    create_pool_account, joiner_plan, Config, JOINER, POOL_CREATOR, ListScenario, ScenarioAction, ScenarioBuilder, ScenarioEvent,
    ScenarioStage, ERR_BALANCE_CONVERSION, ERR_TOO_FEW_POOLS, RANDOM_VALIDATOR, ERR_ZERO_ORIGIN_WEIGHT, MAX_SPANS, USER_SEED,
};

struct Runtime;

impl Config for Runtime {
    type AccountId = u64;
}

fn expect_action(a: &ScenarioAction<Runtime>) -> String {
    match a {
        ScenarioAction::CreatePool { seed, bond } => format!("create {} {}", seed, bond),
        ScenarioAction::Nominate { pool, validator_name, validator_index, validator_seed } => {
            format!("nominate {} {} {} {}", pool, validator_name, validator_index, validator_seed)
        },
        ScenarioAction::QueryDestWeight { pool, is_increase } => {
            format!("query {} {}", pool, is_increase)
        },
        ScenarioAction::Finished { result: Ok(s) } => {
            format!("done {} {} {:?}", s.origin1, s.dest_weight, s.origin1_delegator)
        },
        ScenarioAction::Finished { result: Err(e) } => format!("error {}", e),
    }
}

#[test]
fn constants() {
    assert_eq!(USER_SEED, 0);
    assert_eq!(MAX_SPANS, 100);
}

#[test]
fn scenario_rejects_zero_origin_weight() {
    let r = ScenarioBuilder::<Runtime>::start(0, true, Some(10), u128::MAX);
    assert!(matches!(r, Err(e) if e == ERR_ZERO_ORIGIN_WEIGHT));
    assert_eq!(ERR_ZERO_ORIGIN_WEIGHT, "origin weight must be greater than 0");
}

#[test]
fn scenario_rejects_fewer_than_three_pools() {
    assert!(matches!(ScenarioBuilder::<Runtime>::start(5, true, Some(2), u128::MAX), Err(e) if e == ERR_TOO_FEW_POOLS));
    assert!(matches!(ScenarioBuilder::<Runtime>::start(5, true, None, u128::MAX), Err(e) if e == ERR_TOO_FEW_POOLS));
    assert_eq!(ERR_TOO_FEW_POOLS, "must allow at least three pools for benchmarks");
}

#[test]
fn scenario_runs_through_all_calls() {
    let (b, a) = ScenarioBuilder::<Runtime>::start(1_000, false, Some(3), u128::MAX).ok().unwrap();
    assert!(matches!(b.stage, ScenarioStage::CreatingOrigin1));
    assert_eq!(expect_action(&a), "create 2 1000");
    let (b, a) = b.step(ScenarioEvent::PoolCreated { pool: 11 });
    assert_eq!(expect_action(&a), "nominate 11 random_validator 0 0");
    let (b, a) = b.step(ScenarioEvent::Nominated { result: Ok(()) });
    assert_eq!(expect_action(&a), "create 3 1000");
    let (b, a) = b.step(ScenarioEvent::PoolCreated { pool: 12 });
    assert_eq!(expect_action(&a), "nominate 12 random_validator 0 0");
    let (b, a) = b.step(ScenarioEvent::Nominated { result: Ok(()) });
    assert_eq!(expect_action(&a), "query 11 false");
    let (b, a) = b.step(ScenarioEvent::DestWeight { vote: 777 });
    assert_eq!(expect_action(&a), "create 1 777");
    let (b, a) = b.step(ScenarioEvent::PoolCreated { pool: 13 });
    assert_eq!(expect_action(&a), "nominate 13 random_validator 0 0");
    let (_, a) = b.step(ScenarioEvent::Nominated { result: Ok(()) });
    assert_eq!(expect_action(&a), "done 11 777 None");
}

#[test]
fn scenario_stops_at_a_failed_nomination() {
    let (b, _) = ScenarioBuilder::<Runtime>::start(1_000, true, Some(5), u128::MAX).ok().unwrap();
    let (b, _) = b.step(ScenarioEvent::PoolCreated { pool: 11 });
    let (b, a) = b.step(ScenarioEvent::Nominated { result: Err("TooManyTargets") });
    assert_eq!(expect_action(&a), "error TooManyTargets");
    assert!(matches!(b.stage, ScenarioStage::NominatingOrigin1));
}

#[test]
fn pool_account_creator_gets_twice_the_bond() {
    let plan = create_pool_account(USER_SEED + 2, 500);
    assert_eq!(plan.creator_name, "pool_creator");
    assert_eq!(POOL_CREATOR, "pool_creator");
    assert_eq!(plan.creator_index, 2);
    assert_eq!(plan.creator_seed, USER_SEED);
    assert_eq!(plan.creator_funds, 1_000);
    assert_eq!(plan.bond, 500);
    assert_eq!(plan.pool_index, 2);
}

#[test]
fn pool_index_is_the_seed_truncated_to_u16() {
    assert_eq!(create_pool_account(70_000, 1).pool_index, 4_464);
    assert_eq!(create_pool_account(65_535, 1).pool_index, 65_535);
    assert_eq!(create_pool_account(65_536, 1).pool_index, 0);
}

#[test]
fn pool_creator_holds_every_role() {
    let plan = create_pool_account(5, 10);
    let roles = plan.roles::<Runtime>(42);
    assert_eq!(roles.depositor, 42);
    assert_eq!(roles.root, 42);
    assert_eq!(roles.nominator, 42);
    assert_eq!(roles.state_toggler, 42);
}

#[test]
fn joiner_plan_raises_amount_to_the_minimums() {
    let plan = joiner_plan(10, 3, 4);
    assert_eq!(plan.joiner_name, "joiner");
    assert_eq!(JOINER, "joiner");
    assert_eq!(plan.joiner_index, USER_SEED);
    assert_eq!(plan.joiner_seed, 0);
    assert_eq!(plan.bond, 10);
    assert_eq!(plan.funds, 20);

    let plan = joiner_plan(2, 6, 4);
    assert_eq!(plan.bond, 6);
    assert_eq!(plan.funds, 12);

    let plan = joiner_plan(2, 6, 40);
    assert_eq!(plan.bond, 40);
    assert_eq!(plan.funds, 80);
}

#[test]
fn add_joiner_records_the_member() {
    let scenario = ListScenario::<Runtime> { origin1: 7, dest_weight: 90, origin1_delegator: Some(3) };
    let scenario = scenario.add_joiner(21);
    assert_eq!(scenario.origin1, 7);
    assert_eq!(scenario.dest_weight, 90);
    assert_eq!(scenario.origin1_delegator, Some(21));
}

#[test]
fn scenario_rejects_a_dest_weight_beyond_the_balance_type() {
    // A runtime whose balance is a `u32`.
    let max_balance = u32::MAX as u128;
    let (b, _) = ScenarioBuilder::<Runtime>::start(1_000, true, Some(3), max_balance).ok().unwrap();
    let (b, _) = b.step(ScenarioEvent::PoolCreated { pool: 11 });
    let (b, _) = b.step(ScenarioEvent::Nominated { result: Ok(()) });
    let (b, _) = b.step(ScenarioEvent::PoolCreated { pool: 12 });
    let (b, _) = b.step(ScenarioEvent::Nominated { result: Ok(()) });
    let (b2, a) = b.step(ScenarioEvent::DestWeight { vote: u32::MAX as u64 + 1 });
    assert_eq!(expect_action(&a), "error could not convert u64 to Balance");
    assert_eq!(ERR_BALANCE_CONVERSION, "could not convert u64 to Balance");
    assert!(matches!(b2.stage, ScenarioStage::QueryingDestWeight));
    assert_eq!(RANDOM_VALIDATOR, "random_validator");
}

#[test]
fn scenario_accepts_a_dest_weight_at_the_balance_limit() {
    let max_balance = u32::MAX as u128;
    let (b, _) = ScenarioBuilder::<Runtime>::start(1_000, true, Some(3), max_balance).ok().unwrap();
    let (b, _) = b.step(ScenarioEvent::PoolCreated { pool: 11 });
    let (b, _) = b.step(ScenarioEvent::Nominated { result: Ok(()) });
    let (b, _) = b.step(ScenarioEvent::PoolCreated { pool: 12 });
    let (b, _) = b.step(ScenarioEvent::Nominated { result: Ok(()) });
    let (_, a) = b.step(ScenarioEvent::DestWeight { vote: u32::MAX as u64 });
    assert_eq!(expect_action(&a), "create 1 4294967295");
}
