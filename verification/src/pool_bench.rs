//! The decisions of the nomination-pool benchmarking helpers.
//!
//! Setting up a benchmark scenario alternates calls into the runtime (creating a
//! pool, nominating, querying staking) with checks on their results. The checks
//! and the order of the calls stand here as a state machine: the caller performs
//! each [`ScenarioAction`] against the runtime and hands the outcome back as a
//! [`ScenarioEvent`].

use vstd::prelude::*;

verus! {

/// The seed of every account that the helpers derive.
pub const USER_SEED: u32 = 0;

/// The largest number of slashing spans the benchmarks consider.
pub const MAX_SPANS: u32 = 100;

/// The runtime that the pool benchmarks run against: it names the account type of
/// the nomination-pools, staking and bags-list pallets it configures.
pub trait Config {
    type AccountId: Copy;
}

/// Error raised when the origin weight is zero.
pub const ERR_ZERO_ORIGIN_WEIGHT: &'static str = "origin weight must be greater than 0";

/// Error raised when the runtime allows fewer than three pools.
pub const ERR_TOO_FEW_POOLS: &'static str = "must allow at least three pools for benchmarks";

/// Error raised when the worst-case destination weight does not fit the balance type.
pub const ERR_BALANCE_CONVERSION: &'static str = "could not convert u64 to Balance";

/// The name of the account that every pool of the scenario nominates.
pub const RANDOM_VALIDATOR: &'static str = "random_validator";

/// A worst-case scenario for the bags list: a pool bonded with the origin weight
/// that is to be moved, a second pool in its bag, and a third pool in the bag of
/// the destination weight.
pub struct ListScenario<T: Config> {
    /// The pool account that is expected to be moved.
    pub origin1: T::AccountId,
    /// The bonded weight that moves `origin1` in the worst way.
    pub dest_weight: u128,
    /// The member that joined `origin1`, once one has.
    pub origin1_delegator: Option<T::AccountId>,
}

/// Where the set-up of a [`ListScenario`] stands: which call it waits on.
#[derive(Clone, Copy)]
pub enum ScenarioStage {
    CreatingOrigin1,
    NominatingOrigin1,
    CreatingOrigin2,
    NominatingOrigin2,
    QueryingDestWeight,
    CreatingDest,
    NominatingDest,
}

/// The set-up of a [`ListScenario`] in progress.
pub struct ScenarioBuilder<T: Config> {
    pub stage: ScenarioStage,
    pub origin_weight: u128,
    pub is_increase: bool,
    /// The largest value of the runtime's balance type.
    pub max_balance: u128,
    pub origin1: Option<T::AccountId>,
    pub dest_weight: u128,
}

/// The next call that the set-up asks of the runtime, or its end.
pub enum ScenarioAction<T: Config> {
    /// Create a pool whose creator is derived from `seed`, bonding `bond`.
    CreatePool { seed: u32, bond: u128 },
    /// Let `pool` nominate the benchmark account derived from `validator_name`,
    /// `validator_index` and `validator_seed`.
    Nominate {
        pool: T::AccountId,
        validator_name: &'static str,
        validator_index: u32,
        validator_seed: u32,
    },
    /// Ask staking for the weight that moves `pool` in the worst way.
    QueryDestWeight { pool: T::AccountId, is_increase: bool },
    /// The set-up is over, with its scenario or the error that ended it.
    Finished { result: Result<ListScenario<T>, &'static str> },
}

/// What the runtime answered to the last [`ScenarioAction`].
pub enum ScenarioEvent<T: Config> {
    PoolCreated { pool: T::AccountId },
    Nominated { result: Result<(), &'static str> },
    DestWeight { vote: u64 },
}

impl<T: Config> ScenarioBuilder<T> {
    /// Whether `event` answers the call the set-up waits on.
    pub open spec fn expects(&self, event: ScenarioEvent<T>) -> bool {
        match self.stage {
            ScenarioStage::CreatingOrigin1 | ScenarioStage::CreatingOrigin2
            | ScenarioStage::CreatingDest => event is PoolCreated,
            ScenarioStage::NominatingOrigin1 | ScenarioStage::NominatingOrigin2
            | ScenarioStage::NominatingDest => event is Nominated,
            ScenarioStage::QueryingDestWeight => event is DestWeight,
        }
    }

    /// Whether `event` is the kind of answer that `action` asks for.
    pub open spec fn answers(action: ScenarioAction<T>, event: ScenarioEvent<T>) -> bool {
        match action {
            ScenarioAction::CreatePool { .. } => event is PoolCreated,
            ScenarioAction::Nominate { .. } => event is Nominated,
            ScenarioAction::QueryDestWeight { .. } => event is DestWeight,
            ScenarioAction::Finished { .. } => false,
        }
    }

    /// The set-up has seen the first pool created, so far as its stage needs it.
    pub open spec fn wf(&self) -> bool {
        match self.stage {
            ScenarioStage::CreatingOrigin1 => true,
            _ => self.origin1 is Some,
        }
    }

    /// Starts the set-up of a scenario for `origin_weight`, given the runtime's
    /// limit on the number of pools and the largest value of its balance type. It
    /// fails unless the weight is positive and at least three pools are allowed;
    /// otherwise it asks for the first pool.
    pub fn start(
        origin_weight: u128,
        is_increase: bool,
        max_pools: Option<u32>,
        max_balance: u128,
    ) -> (r: Result<
        (Self, ScenarioAction<T>),
        &'static str,
    >)
        ensures
            origin_weight == 0 ==> r == Err::<(Self, ScenarioAction<T>), &'static str>(
                ERR_ZERO_ORIGIN_WEIGHT,
            ),
            origin_weight != 0 && (max_pools matches Some(m) ==> m < 3) ==> r == Err::<
                (Self, ScenarioAction<T>),
                &'static str,
            >(ERR_TOO_FEW_POOLS),
            origin_weight != 0 && (max_pools matches Some(m) && m >= 3) ==> (r matches Ok(
                p,
            ) && p.0.wf() && p.0.stage is CreatingOrigin1 && p.0.origin_weight == origin_weight
                && p.0.is_increase == is_increase && p.0.max_balance == max_balance
                && p.0.origin1 is None && (forall|e: ScenarioEvent<T>|
                Self::answers(p.1, e) ==> #[trigger] p.0.expects(e)) && p.1 == (
            ScenarioAction::<T>::CreatePool { seed: (USER_SEED + 2) as u32, bond: origin_weight })),
    {
        if origin_weight == 0 {
            return Err(ERR_ZERO_ORIGIN_WEIGHT);
        }
        let allowed = match max_pools {
            Some(m) => m,
            None => 0,
        };
        if allowed < 3 {
            return Err(ERR_TOO_FEW_POOLS);
        }
        let builder = ScenarioBuilder {
            stage: ScenarioStage::CreatingOrigin1,
            origin_weight,
            is_increase,
            max_balance,
            origin1: None,
            dest_weight: 0,
        };
        Ok((builder, ScenarioAction::CreatePool { seed: USER_SEED + 2, bond: origin_weight }))
    }


    /// The transition table of the set-up: what follows `self` when the runtime
    /// answers `event`. Each pool that was created nominates; after the two origin
    /// pools, staking is asked for the worst-case destination weight and a third pool
    /// is created with it, unless the weight does not fit the balance type; once that
    /// pool has nominated, the scenario is complete. A failed nomination ends the
    /// set-up with its error.
    pub open spec fn next(self, event: ScenarioEvent<T>) -> (Self, ScenarioAction<T>) {
        let same = self;
        match (self.stage, event) {
            (ScenarioStage::CreatingOrigin1, ScenarioEvent::PoolCreated { pool }) => (
                ScenarioBuilder { stage: ScenarioStage::NominatingOrigin1, origin1: Some(pool), ..self },
                ScenarioAction::Nominate {
                    pool,
                    validator_name: RANDOM_VALIDATOR,
                    validator_index: 0,
                    validator_seed: USER_SEED,
                },
            ),
            (ScenarioStage::CreatingOrigin2, ScenarioEvent::PoolCreated { pool }) => (
                ScenarioBuilder { stage: ScenarioStage::NominatingOrigin2, ..self },
                ScenarioAction::Nominate {
                    pool,
                    validator_name: RANDOM_VALIDATOR,
                    validator_index: 0,
                    validator_seed: USER_SEED,
                },
            ),
            (ScenarioStage::CreatingDest, ScenarioEvent::PoolCreated { pool }) => (
                ScenarioBuilder { stage: ScenarioStage::NominatingDest, ..self },
                ScenarioAction::Nominate {
                    pool,
                    validator_name: RANDOM_VALIDATOR,
                    validator_index: 0,
                    validator_seed: USER_SEED,
                },
            ),
            (_, ScenarioEvent::Nominated { result: Err(e) }) => (
                same,
                ScenarioAction::Finished { result: Err(e) },
            ),
            (ScenarioStage::NominatingOrigin1, ScenarioEvent::Nominated { result: Ok(()) }) => (
                ScenarioBuilder { stage: ScenarioStage::CreatingOrigin2, ..self },
                ScenarioAction::CreatePool { seed: (USER_SEED + 3) as u32, bond: self.origin_weight },
            ),
            (ScenarioStage::NominatingOrigin2, ScenarioEvent::Nominated { result: Ok(()) }) => (
                ScenarioBuilder { stage: ScenarioStage::QueryingDestWeight, ..self },
                ScenarioAction::QueryDestWeight {
                    pool: self.origin1.unwrap(),
                    is_increase: self.is_increase,
                },
            ),
            (ScenarioStage::QueryingDestWeight, ScenarioEvent::DestWeight { vote }) => if vote
                <= self.max_balance {
                (
                    ScenarioBuilder {
                        stage: ScenarioStage::CreatingDest,
                        dest_weight: vote as u128,
                        ..self
                    },
                    ScenarioAction::CreatePool { seed: (USER_SEED + 1) as u32, bond: vote as u128 },
                )
            } else {
                (same, ScenarioAction::Finished { result: Err(ERR_BALANCE_CONVERSION) })
            },
            (ScenarioStage::NominatingDest, ScenarioEvent::Nominated { result: Ok(()) }) => (
                same,
                ScenarioAction::Finished {
                    result: Ok(
                        ListScenario {
                            origin1: self.origin1.unwrap(),
                            dest_weight: self.dest_weight,
                            origin1_delegator: None,
                        },
                    ),
                },
            ),
            // An answer to a call that was not made: `expects` rules it out.
            _ => arbitrary(),
        }
    }

    /// Takes the runtime's answer to the last call and decides the next one, as
    /// [`Self::next`] says.
    pub fn step(self, event: ScenarioEvent<T>) -> (r: (Self, ScenarioAction<T>))
        requires
            self.wf(),
            self.expects(event),
        ensures
            r.0.wf(),
            r == self.next(event),
            !(r.1 is Finished) ==> forall|e: ScenarioEvent<T>|
                Self::answers(r.1, e) ==> #[trigger] r.0.expects(e),
    {
        let mut b = self;
        match event {
            ScenarioEvent::PoolCreated { pool } => {
                b.stage = match b.stage {
                    ScenarioStage::CreatingOrigin1 => {
                        b.origin1 = Some(pool);
                        ScenarioStage::NominatingOrigin1
                    },
                    ScenarioStage::CreatingOrigin2 => ScenarioStage::NominatingOrigin2,
                    _ => ScenarioStage::NominatingDest,
                };
                let action = ScenarioAction::Nominate {
                    pool,
                    validator_name: RANDOM_VALIDATOR,
                    validator_index: 0,
                    validator_seed: USER_SEED,
                };
                (b, action)
            },
            ScenarioEvent::Nominated { result: Err(e) } => (b, ScenarioAction::Finished {
                result: Err(e),
            }),
            ScenarioEvent::Nominated { result: Ok(()) } => {
                match b.stage {
                    ScenarioStage::NominatingOrigin1 => {
                        b.stage = ScenarioStage::CreatingOrigin2;
                        let action = ScenarioAction::CreatePool {
                            seed: USER_SEED + 3,
                            bond: b.origin_weight,
                        };
                        (b, action)
                    },
                    ScenarioStage::NominatingOrigin2 => {
                        b.stage = ScenarioStage::QueryingDestWeight;
                        let action = ScenarioAction::QueryDestWeight {
                            pool: b.origin1.unwrap(),
                            is_increase: b.is_increase,
                        };
                        (b, action)
                    },
                    _ => {
                        let scenario = ListScenario {
                            origin1: b.origin1.unwrap(),
                            dest_weight: b.dest_weight,
                            origin1_delegator: None,
                        };
                        (b, ScenarioAction::Finished { result: Ok(scenario) })
                    },
                }
            },
            ScenarioEvent::DestWeight { vote } => {
                let dest: u128 = vote as u128;
                if dest > b.max_balance {
                    return (b, ScenarioAction::Finished { result: Err(ERR_BALANCE_CONVERSION) });
                }
                b.stage = ScenarioStage::CreatingDest;
                b.dest_weight = dest;
                (b, ScenarioAction::CreatePool { seed: USER_SEED + 1, bond: dest })
            },
        }
    }
}

/// The larger of two balances.
pub open spec fn max_balance(a: u128, b: u128) -> u128 {
    if a >= b { a } else { b }
}

/// The name from which each pool creator's account is derived.
pub const POOL_CREATOR: &'static str = "pool_creator";

/// The name from which the joining member's account is derived.
pub const JOINER: &'static str = "joiner";

/// What creating a bonded pool for index `n` asks of the runtime: a creator,
/// the benchmark account derived from `creator_name`, `creator_index` and
/// `creator_seed`, funded with twice the bond; and a pool with index `n` taken as
/// a `u16`, bonding `bond`, in which the creator holds every role.
pub struct PoolAccountPlan {
    pub creator_name: &'static str,
    pub creator_index: u32,
    pub creator_seed: u32,
    pub creator_funds: u128,
    pub bond: u128,
    pub pool_index: u16,
}

/// The accounts that hold the roles of a new pool.
pub struct PoolRoles<T: Config> {
    pub depositor: T::AccountId,
    pub root: T::AccountId,
    pub nominator: T::AccountId,
    pub state_toggler: T::AccountId,
}

/// Plans a bonded pool account for index `n` that bonds `balance` and whose
/// creator, `("pool_creator", n, USER_SEED)`, gets twice `balance` as free balance.
pub fn create_pool_account(n: u32, balance: u128) -> (plan: PoolAccountPlan)
    requires
        balance * 2 <= u128::MAX,
    ensures
        plan.creator_name == POOL_CREATOR,
        plan.creator_index == n,
        plan.creator_seed == USER_SEED,
        plan.creator_funds == balance * 2,
        plan.bond == balance,
        plan.pool_index == n % 0x1_0000,
{
    let pool_index = (n % 0x1_0000) as u16;
    PoolAccountPlan {
        creator_name: POOL_CREATOR,
        creator_index: n,
        creator_seed: USER_SEED,
        creator_funds: balance * 2,
        bond: balance,
        pool_index,
    }
}

impl PoolAccountPlan {
    /// The roles of the planned pool: `creator`, the account derived as the plan
    /// says, is its depositor, root, nominator and state toggler.
    pub fn roles<T: Config>(&self, creator: T::AccountId) -> (roles: PoolRoles<T>)
        ensures
            roles.depositor == creator,
            roles.root == creator,
            roles.nominator == creator,
            roles.state_toggler == creator,
    {
        PoolRoles { depositor: creator, root: creator, nominator: creator, state_toggler: creator }
    }
}

/// What letting a member join the scenario's pool asks of the runtime: the joiner,
/// the benchmark account derived from `joiner_name`, `joiner_index` and
/// `joiner_seed`; the bond it brings, which is also unbonded from the pool first;
/// and the free balance it is given, twice that bond.
pub struct JoinerPlan {
    pub joiner_name: &'static str,
    pub joiner_index: u32,
    pub joiner_seed: u32,
    pub bond: u128,
    pub funds: u128,
}

/// Plans a member joining with `amount`, raised to the pallet's minimum join bond
/// and to the currency's minimum balance so that the joiner can exist and may
/// join. The joiner is `("joiner", USER_SEED, 0)`, funded with twice its bond.
pub fn joiner_plan(min_join_bond: u128, minimum_balance: u128, amount: u128) -> (plan: JoinerPlan)
    requires
        max_balance(max_balance(min_join_bond, minimum_balance), amount) * 2 <= u128::MAX,
    ensures
        plan.joiner_name == JOINER,
        plan.joiner_index == USER_SEED,
        plan.joiner_seed == 0,
        plan.bond == max_balance(max_balance(min_join_bond, minimum_balance), amount),
        plan.funds == plan.bond * 2,
{
    let floor = if min_join_bond >= minimum_balance {
        min_join_bond
    } else {
        minimum_balance
    };
    let bond = if floor >= amount {
        floor
    } else {
        amount
    };
    JoinerPlan { joiner_name: JOINER, joiner_index: USER_SEED, joiner_seed: 0, bond, funds: bond * 2 }
}

impl<T: Config> ListScenario<T> {
    /// Records `joiner`, the account derived as [`joiner_plan`] says, as the member
    /// of `origin1`, in place of any earlier one; the pool and the destination
    /// weight stay.
    pub fn add_joiner(self, joiner: T::AccountId) -> (r: Self)
        ensures
            r.origin1 == self.origin1,
            r.dest_weight == self.dest_weight,
            r.origin1_delegator == Some(joiner),
    {
        ListScenario {
            origin1: self.origin1,
            dest_weight: self.dest_weight,
            origin1_delegator: Some(joiner),
        }
    }
}

/// A set-up in which every call succeeds asks, in order: a nomination by the
/// first pool, a second pool with the origin weight, its nomination, the
/// worst-case destination weight for the first pool, a pool bonded with that
/// weight (which fits the balance type), and its nomination; it ends with the
/// scenario of the first pool and that weight, with no member yet.
pub proof fn lemma_scenario_run<T: Config>(
    b0: ScenarioBuilder<T>,
    origin1: T::AccountId,
    origin2: T::AccountId,
    vote: u64,
    dest: T::AccountId,
)
    requires
        b0.stage is CreatingOrigin1,
        vote <= b0.max_balance,
    ensures
        ({
            let (b1, a1) = b0.next(ScenarioEvent::PoolCreated { pool: origin1 });
            let (b2, a2) = b1.next(ScenarioEvent::Nominated { result: Ok(()) });
            let (b3, a3) = b2.next(ScenarioEvent::PoolCreated { pool: origin2 });
            let (b4, a4) = b3.next(ScenarioEvent::Nominated { result: Ok(()) });
            let (b5, a5) = b4.next(ScenarioEvent::DestWeight { vote });
            let (b6, a6) = b5.next(ScenarioEvent::PoolCreated { pool: dest });
            let (b7, a7) = b6.next(ScenarioEvent::Nominated { result: Ok(()) });
            &&& a1 == ScenarioAction::<T>::Nominate {
                pool: origin1,
                validator_name: RANDOM_VALIDATOR,
                validator_index: 0,
                validator_seed: USER_SEED,
            }
            &&& a2 == ScenarioAction::<T>::CreatePool {
                seed: (USER_SEED + 3) as u32,
                bond: b0.origin_weight,
            }
            &&& a3 == ScenarioAction::<T>::Nominate {
                pool: origin2,
                validator_name: RANDOM_VALIDATOR,
                validator_index: 0,
                validator_seed: USER_SEED,
            }
            &&& a4 == ScenarioAction::<T>::QueryDestWeight {
                pool: origin1,
                is_increase: b0.is_increase,
            }
            &&& a5 == ScenarioAction::<T>::CreatePool {
                seed: (USER_SEED + 1) as u32,
                bond: vote as u128,
            }
            &&& a6 == ScenarioAction::<T>::Nominate {
                pool: dest,
                validator_name: RANDOM_VALIDATOR,
                validator_index: 0,
                validator_seed: USER_SEED,
            }
            &&& a7 == ScenarioAction::<T>::Finished {
                result: Ok(
                    ListScenario { origin1, dest_weight: vote as u128, origin1_delegator: None },
                ),
            }
        }),
{
}

/// A failed nomination, at whatever stage, ends the set-up with its error and
/// leaves the set-up as it was.
pub proof fn lemma_scenario_nomination_failure<T: Config>(b: ScenarioBuilder<T>, e: &'static str)
    requires
        b.expects(ScenarioEvent::Nominated { result: Err(e) }),
    ensures
        b.next(ScenarioEvent::Nominated { result: Err(e) }) == (
            b,
            ScenarioAction::<T>::Finished { result: Err(e) },
        ),
{
}

/// A worst-case destination weight beyond the balance type ends the set-up with
/// the conversion error.
pub proof fn lemma_scenario_dest_weight_too_large<T: Config>(b: ScenarioBuilder<T>, vote: u64)
    requires
        b.stage is QueryingDestWeight,
        vote > b.max_balance,
    ensures
        b.next(ScenarioEvent::DestWeight { vote }) == (
            b,
            ScenarioAction::<T>::Finished { result: Err(ERR_BALANCE_CONVERSION) },
        ),
{
}

} // verus!
