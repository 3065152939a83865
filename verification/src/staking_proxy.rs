//! LP staking proxy: stakes the red bank's LP tokens in the Astroport generator on behalf of
//! maToken holders, and shares the ASTRO and proxy rewards between them by indexes of
//! rewards per staked maToken share, less a treasury fee.

use vstd::prelude::*;

use crate::error::ContractError;
use crate::math::{mul_div, Decimal, DECIMAL_FRACTIONAL};

verus! {

/// Proxy configuration.
#[derive(Debug)]
pub struct Config {
    pub redbank_addr: String,
    pub astro_generator_addr: String,
    pub redbank_treasury: String,
    pub lp_token_addr: String,
    pub ma_token_addr: Option<String>,
    pub pool_addr: String,
    pub astro_token: String,
    pub proxy_token: Option<String>,
    /// Share of the ASTRO rewards taken for the treasury.
    pub astro_treasury_fee: Decimal,
    /// Share of the proxy rewards taken for the treasury.
    pub proxy_treasury_fee: Decimal,
}

/// Global staking state.
#[derive(Debug, Clone, Copy, PartialEq, Eq, Structural)]
pub struct State {
    /// Staked tokens count as collateral in red bank positions.
    pub is_collateral: bool,
    /// Staking is allowed.
    pub is_stakable: bool,
    /// maToken shares whose underlying liquidity is staked.
    pub total_ma_shares_staked: u128,
    /// ASTRO balance before rewards were last claimed from the generator.
    pub astro_balance_before_claim: u128,
    /// ASTRO rewards accrued per maToken share.
    pub global_astro_per_ma_share_index: Decimal,
    /// Proxy token balance before rewards were last claimed from the generator.
    pub proxy_balance_before_claim: u128,
    /// Proxy rewards accrued per maToken share.
    pub global_proxy_per_ma_share_index: Decimal,
}

/// A staker's position.
#[derive(Debug, Clone, Copy, PartialEq, Eq, Structural)]
pub struct UserInfo {
    pub ma_tokens_staked: u128,
    pub user_astro_per_ma_share_index: Decimal,
    pub claimable_astro: u128,
    pub user_proxy_per_ma_share_index: Decimal,
    pub claimable_proxy: u128,
}

impl Default for UserInfo {
    /// A user who never staked: nothing staked, claimable or indexed.
    fn default() -> (u: UserInfo)
        ensures
            u.ma_tokens_staked == 0 && u.claimable_astro == 0 && u.claimable_proxy == 0,
            u.user_astro_per_ma_share_index.atomics == 0,
            u.user_proxy_per_ma_share_index.atomics == 0,
    {
        UserInfo {
            ma_tokens_staked: 0,
            user_astro_per_ma_share_index: Decimal::zero(),
            claimable_astro: 0,
            user_proxy_per_ma_share_index: Decimal::zero(),
            claimable_proxy: 0,
        }
    }
}

/// The two reward tokens.
#[derive(Debug, Clone, Copy, PartialEq, Eq, Structural)]
pub enum RewardToken {
    Astro,
    Proxy,
}

/// A message the proxy sends.
#[derive(Debug, Clone, Copy, PartialEq, Eq, Structural)]
pub enum ProxyMsg {
    /// The treasury fee on newly claimed rewards goes to the red bank treasury.
    FeeTransfer { token: RewardToken, amount: u128 },
    /// A user's accrued rewards are paid out.
    RewardTransfer { token: RewardToken, amount: u128 },
    /// Claim pending rewards from the generator.
    ClaimFromGenerator,
    /// Stake LP tokens in the generator.
    DepositToGenerator { amount: u128 },
    /// Unstake LP tokens from the generator.
    WithdrawFromGenerator { amount: u128 },
    /// Then send the unstaked LP tokens to the red bank.
    TransferLpTokensToRedBank,
}

/// Builds the configuration and state of a new proxy: no maToken yet, no fees, nothing staked.
pub fn instantiate(
    redbank_addr: String,
    astro_generator_addr: String,
    redbank_treasury: String,
    lp_token_addr: String,
    pool_addr: String,
    astro_token: String,
    proxy_token: Option<String>,
    is_collateral: bool,
    is_stakable: bool,
) -> (r: (Config, State))
    ensures
        r.0.redbank_addr == redbank_addr && r.0.astro_generator_addr == astro_generator_addr
            && r.0.redbank_treasury == redbank_treasury && r.0.lp_token_addr == lp_token_addr
            && r.0.pool_addr == pool_addr && r.0.astro_token == astro_token && r.0.proxy_token
            == proxy_token,
        r.0.ma_token_addr is None,
        r.0.astro_treasury_fee.atomics == 0 && r.0.proxy_treasury_fee.atomics == 0,
        r.1.is_collateral == is_collateral && r.1.is_stakable == is_stakable,
        r.1.total_ma_shares_staked == 0 && r.1.astro_balance_before_claim == 0
            && r.1.proxy_balance_before_claim == 0,
        r.1.global_astro_per_ma_share_index.atomics == 0
            && r.1.global_proxy_per_ma_share_index.atomics == 0,
{
    let config = Config {
        redbank_addr,
        astro_generator_addr,
        redbank_treasury,
        lp_token_addr,
        ma_token_addr: None,
        pool_addr,
        astro_token,
        proxy_token,
        astro_treasury_fee: Decimal::zero(),
        proxy_treasury_fee: Decimal::zero(),
    };
    let state = State {
        is_collateral,
        is_stakable,
        total_ma_shares_staked: 0,
        astro_balance_before_claim: 0,
        proxy_balance_before_claim: 0,
        global_astro_per_ma_share_index: Decimal::zero(),
        global_proxy_per_ma_share_index: Decimal::zero(),
    };
    (config, state)
}

/// Records the maToken whose holders the proxy stakes for.
pub fn set_ma_token_address(config: &mut Config, ma_token_addr: String)
    ensures
        *final(config) == (Config { ma_token_addr: Some(ma_token_addr), ..*old(config) }),
{
    config.ma_token_addr = Some(ma_token_addr);
}

/// `amount * d`, rounded down.
pub open spec fn mul_dec(amount: u128, d: Decimal) -> int {
    mul_div(amount as int, d.atomics as int, DECIMAL_FRACTIONAL as int)
}

/// Rewards accrued on `staked` shares between a user's index and the global index, if
/// every step fits: both products in 128 bits, the global one not below the user's, and the
/// new claimable amount in 128 bits.
pub open spec fn accrued(global: Decimal, user: Decimal, staked: u128, claimable: u128) -> Option<u128> {
    let g = mul_dec(staked, global);
    let u = mul_dec(staked, user);
    if g <= u128::MAX && u <= u128::MAX && g >= u && claimable + (g - u) <= u128::MAX {
        Some((claimable + (g - u)) as u128)
    } else {
        None
    }
}

/// Whether updating a user's rewards against the state succeeds.
pub open spec fn user_rewards_ok(user_info: UserInfo, state: State) -> bool {
    &&& accrued(
        state.global_astro_per_ma_share_index,
        user_info.user_astro_per_ma_share_index,
        user_info.ma_tokens_staked,
        user_info.claimable_astro,
    ) is Some
    &&& accrued(
        state.global_proxy_per_ma_share_index,
        user_info.user_proxy_per_ma_share_index,
        user_info.ma_tokens_staked,
        user_info.claimable_proxy,
    ) is Some
}

/// Rewards accrued by `staked` shares from `user_index` to `global_index`, added to
/// `claimable`, or an overflow error.
fn accrue_user(global_index: Decimal, user_index: Decimal, staked: u128, claimable: u128) -> (r:
    Result<u128, ContractError>)
    ensures
        accrued(global_index, user_index, staked, claimable) matches Some(v) ==> r == Ok::<
            u128,
            ContractError,
        >(v),
        accrued(global_index, user_index, staked, claimable) is None ==> r == Err::<
            u128,
            ContractError,
        >(ContractError::Overflow),
{
    let g = match global_index.checked_mul_uint(staked) {
        Some(v) => v,
        None => {
            return Err(ContractError::Overflow);
        },
    };
    let u = match user_index.checked_mul_uint(staked) {
        Some(v) => v,
        None => {
            return Err(ContractError::Overflow);
        },
    };
    if g < u {
        return Err(ContractError::Overflow);
    }
    match claimable.checked_add(g - u) {
        Some(v) => Ok(v),
        None => Err(ContractError::Overflow),
    }
}

/// The user with ASTRO and proxy rewards accrued up to the global indexes of `state`, and
/// their indexes moved to those global indexes.
pub open spec fn rewarded_user(user_info: UserInfo, state: State) -> UserInfo {
    UserInfo {
        claimable_astro: accrued(
            state.global_astro_per_ma_share_index,
            user_info.user_astro_per_ma_share_index,
            user_info.ma_tokens_staked,
            user_info.claimable_astro,
        )->Some_0,
        user_astro_per_ma_share_index: state.global_astro_per_ma_share_index,
        claimable_proxy: accrued(
            state.global_proxy_per_ma_share_index,
            user_info.user_proxy_per_ma_share_index,
            user_info.ma_tokens_staked,
            user_info.claimable_proxy,
        )->Some_0,
        user_proxy_per_ma_share_index: state.global_proxy_per_ma_share_index,
        ..user_info
    }
}

/// Brings the user's ASTRO and proxy rewards up to the global indexes of `state`: the
/// rewards accrued on the staked shares since the user's indexes are added to what they
/// can claim, and their indexes become the global ones. Fails on overflow.
pub fn update_user_rewards(user_info: UserInfo, state: &State) -> (r: Result<UserInfo, ContractError>)
    ensures
        user_rewards_ok(user_info, *state) ==> r == Ok::<UserInfo, ContractError>(
            rewarded_user(user_info, *state),
        ),
        !user_rewards_ok(user_info, *state) ==> r == Err::<UserInfo, ContractError>(
            ContractError::Overflow,
        ),
{
    let mut user_info = user_info;
    let ghost original = user_info;
    let claimable_astro = match accrue_user(
        state.global_astro_per_ma_share_index,
        user_info.user_astro_per_ma_share_index,
        user_info.ma_tokens_staked,
        user_info.claimable_astro,
    ) {
        Ok(v) => v,
        Err(e) => {
            return Err(e);
        },
    };
    user_info.claimable_astro = claimable_astro;
    user_info.user_astro_per_ma_share_index = state.global_astro_per_ma_share_index;
    let claimable_proxy = match accrue_user(
        state.global_proxy_per_ma_share_index,
        user_info.user_proxy_per_ma_share_index,
        user_info.ma_tokens_staked,
        user_info.claimable_proxy,
    ) {
        Ok(v) => v,
        Err(e) => {
            return Err(e);
        },
    };
    user_info.claimable_proxy = claimable_proxy;
    user_info.user_proxy_per_ma_share_index = state.global_proxy_per_ma_share_index;
    assert(user_info == rewarded_user(original, *state));
    Ok(user_info)
}

/// Treasury fee on `rewards`: none when the fee rate is zero.
pub open spec fn fee_of(rewards: u128, rate: Decimal) -> int {
    if rate.atomics == 0 {
        0
    } else {
        mul_dec(rewards, rate)
    }
}

/// New index and fee after rewards of `rewards` are shared among `total` shares, less the
/// fee; `None` when the fee exceeds the rewards.
pub open spec fn accrue_spec(index: Decimal, rewards: u128, rate: Decimal, total: u128) -> Option<
    (Decimal, u128),
> {
    let fee = fee_of(rewards, rate);
    if fee > rewards {
        None
    } else {
        Some(
            (
                Decimal {
                    atomics: (index.atomics + mul_div(
                        rewards - fee,
                        DECIMAL_FRACTIONAL as int,
                        total as int,
                    )) as u128,
                },
                fee as u128,
            ),
        )
    }
}

/// Sharing `rewards` at this fee rate cannot overflow: the fee, the per-share ratio and the
/// new index all fit.
pub open spec fn accrue_fits(index: Decimal, rewards: u128, rate: Decimal, total: u128) -> bool {
    &&& total > 0
    &&& fee_of(rewards, rate) <= u128::MAX
    &&& fee_of(rewards, rate) <= rewards ==> {
        let ratio = mul_div(
            rewards - fee_of(rewards, rate),
            DECIMAL_FRACTIONAL as int,
            total as int,
        );
        ratio <= u128::MAX && index.atomics + ratio <= u128::MAX
    }
}

/// Law: sharing rewards never lowers an index, and the fee never exceeds the rewards.
pub proof fn lemma_accrue_never_decreases(index: Decimal, rewards: u128, rate: Decimal, total: u128)
    requires
        accrue_fits(index, rewards, rate, total),
        accrue_spec(index, rewards, rate, total) is Some,
    ensures
        accrue_spec(index, rewards, rate, total)->Some_0.0.atomics >= index.atomics,
        accrue_spec(index, rewards, rate, total)->Some_0.1 <= rewards,
{
    let fee = fee_of(rewards, rate);
    if rate.atomics != 0 {
        crate::math::lemma_mul_div_nonneg(rewards as int, rate.atomics as int, DECIMAL_FRACTIONAL as int);
    }
    crate::math::lemma_mul_div_nonneg(rewards - fee, DECIMAL_FRACTIONAL as int, total as int);
}

/// Law: bringing a user up to the global index never lowers their claimable rewards.
pub proof fn lemma_accrued_never_decreases(global: Decimal, user: Decimal, staked: u128, claimable: u128)
    requires
        accrued(global, user, staked, claimable) is Some,
    ensures
        accrued(global, user, staked, claimable)->Some_0 >= claimable,
{
}

/// Adds `rewards` less the treasury fee, per share of `total`, to `index`; returns the new
/// index and the fee, or an overflow error when the fee exceeds the rewards.
pub fn accrue_index(index: Decimal, rewards: u128, rate: Decimal, total: u128) -> (r: Result<
    (Decimal, u128),
    ContractError,
>)
    requires
        accrue_fits(index, rewards, rate, total),
    ensures
        accrue_spec(index, rewards, rate, total) matches Some(v) ==> r == Ok::<
            (Decimal, u128),
            ContractError,
        >(v),
        accrue_spec(index, rewards, rate, total) is None ==> r == Err::<
            (Decimal, u128),
            ContractError,
        >(ContractError::Overflow),
{
    let mut net = rewards;
    let mut fee: u128 = 0;
    if !rate.is_zero() {
        fee = rate.mul_uint(rewards);
        if fee > rewards {
            return Err(ContractError::Overflow);
        }
        net = rewards - fee;
    }
    let ratio = Decimal::from_ratio(net, total);
    Ok((index.add(ratio), fee))
}

/// Newly claimed rewards: the balance growth since the claim, or `None` if it shrank.
pub open spec fn claimed(balance: u128, before: u128) -> Option<u128> {
    if balance >= before {
        Some((balance - before) as u128)
    } else {
        None
    }
}

/// Updating the indexes with these balances cannot overflow.
pub open spec fn rewards_update_fits(
    config: Config,
    state: State,
    astro_balance: u128,
    proxy_balance: u128,
) -> bool {
    state.total_ma_shares_staked > 0 ==> {
        &&& claimed(astro_balance, state.astro_balance_before_claim) matches Some(a)
            ==> accrue_fits(
            state.global_astro_per_ma_share_index,
            a,
            config.astro_treasury_fee,
            state.total_ma_shares_staked,
        )
        &&& config.proxy_token is Some ==> (claimed(proxy_balance, state.proxy_balance_before_claim)
            matches Some(p) ==> accrue_fits(
            state.global_proxy_per_ma_share_index,
            p,
            config.proxy_treasury_fee,
            state.total_ma_shares_staked,
        ))
    }
}

/// The state and treasury fee messages after updating the reward indexes, or `None` when
/// a balance shrank or a fee exceeded its rewards.
pub open spec fn rewards_update(
    config: Config,
    state: State,
    astro_balance: u128,
    proxy_balance: u128,
) -> Option<(State, Seq<ProxyMsg>)> {
    if state.total_ma_shares_staked == 0 {
        Some((state, Seq::empty()))
    } else {
        match claimed(astro_balance, state.astro_balance_before_claim) {
            None => None,
            Some(a) => match accrue_spec(
                state.global_astro_per_ma_share_index,
                a,
                config.astro_treasury_fee,
                state.total_ma_shares_staked,
            ) {
                None => None,
                Some((astro_index, astro_fee)) => {
                    let s1 = State { global_astro_per_ma_share_index: astro_index, ..state };
                    let m1: Seq<ProxyMsg> = if config.astro_treasury_fee.atomics == 0 {
                        Seq::empty()
                    } else {
                        seq![ProxyMsg::FeeTransfer { token: RewardToken::Astro, amount: astro_fee }]
                    };
                    if config.proxy_token is None {
                        Some((s1, m1))
                    } else {
                        match claimed(proxy_balance, state.proxy_balance_before_claim) {
                            None => None,
                            Some(p) => match accrue_spec(
                                state.global_proxy_per_ma_share_index,
                                p,
                                config.proxy_treasury_fee,
                                state.total_ma_shares_staked,
                            ) {
                                None => None,
                                Some((proxy_index, proxy_fee)) => {
                                    let s2 = State { global_proxy_per_ma_share_index: proxy_index, ..s1 };
                                    let m2 = if config.proxy_treasury_fee.atomics == 0 {
                                        m1
                                    } else {
                                        m1.push(
                                            ProxyMsg::FeeTransfer {
                                                token: RewardToken::Proxy,
                                                amount: proxy_fee,
                                            },
                                        )
                                    };
                                    Some((s2, m2))
                                },
                            },
                        }
                    }
                },
            },
        }
    }
}

/// Total of the treasury fee transfers of `token` among `msgs`.
pub open spec fn fees_sent(msgs: Seq<ProxyMsg>, token: RewardToken) -> int
    decreases msgs.len(),
{
    if msgs.len() == 0 {
        0
    } else {
        fees_sent(msgs.drop_last(), token) + match msgs.last() {
            ProxyMsg::FeeTransfer { token: t, amount } => if t == token {
                amount as int
            } else {
                0
            },
            _ => 0,
        }
    }
}

/// Law: newly claimed rewards are conserved per reward token. For ASTRO, and for the proxy
/// token when one is configured, the fee sent to the treasury is the claimed amount times
/// that token's fee rate (none at a zero rate), and what is left of the claimed amount is
/// shared among the staked shares: the token's global index grows by it divided by the
/// shares. Without a proxy token no proxy fee is sent and the proxy index is unchanged.
pub proof fn lemma_rewards_conserved(
    config: Config,
    state: State,
    astro_balance: u128,
    proxy_balance: u128,
)
    requires
        state.total_ma_shares_staked > 0,
        rewards_update_fits(config, state, astro_balance, proxy_balance),
        rewards_update(config, state, astro_balance, proxy_balance) is Some,
    ensures
        ({
            let (s, m) = rewards_update(config, state, astro_balance, proxy_balance)->Some_0;
            let f = DECIMAL_FRACTIONAL as int;
            let n = state.total_ma_shares_staked as int;
            let ca = astro_balance - state.astro_balance_before_claim;
            let cp = proxy_balance - state.proxy_balance_before_claim;
            let astro_rate = config.astro_treasury_fee.atomics;
            let proxy_rate = config.proxy_treasury_fee.atomics;
            &&& ca >= 0
            &&& fees_sent(m, RewardToken::Astro) == (if astro_rate == 0 {
                0
            } else {
                ca * astro_rate / f
            })
            &&& 0 <= fees_sent(m, RewardToken::Astro) <= ca
            &&& s.global_astro_per_ma_share_index.atomics == state.global_astro_per_ma_share_index.atomics
                + (ca - fees_sent(m, RewardToken::Astro)) * f / n
            &&& config.proxy_token is Some ==> {
                &&& cp >= 0
                &&& fees_sent(m, RewardToken::Proxy) == (if proxy_rate == 0 {
                    0
                } else {
                    cp * proxy_rate / f
                })
                &&& 0 <= fees_sent(m, RewardToken::Proxy) <= cp
                &&& s.global_proxy_per_ma_share_index.atomics
                    == state.global_proxy_per_ma_share_index.atomics + (cp - fees_sent(
                    m,
                    RewardToken::Proxy,
                )) * f / n
            }
            &&& config.proxy_token is None ==> fees_sent(m, RewardToken::Proxy) == 0
                && s.global_proxy_per_ma_share_index == state.global_proxy_per_ma_share_index
        }),
{
    reveal_with_fuel(fees_sent, 3);
    let f = DECIMAL_FRACTIONAL as int;
    let ca = (astro_balance - state.astro_balance_before_claim) as u128;
    let cp = (proxy_balance - state.proxy_balance_before_claim) as u128;
    if config.astro_treasury_fee.atomics != 0 {
        crate::math::lemma_mul_div_nonneg(ca as int, config.astro_treasury_fee.atomics as int, f);
    }
    if config.proxy_token is Some && config.proxy_treasury_fee.atomics != 0 {
        crate::math::lemma_mul_div_nonneg(cp as int, config.proxy_treasury_fee.atomics as int, f);
    }
    let (s, m) = rewards_update(config, state, astro_balance, proxy_balance)->Some_0;
    let afee = accrue_spec(
        state.global_astro_per_ma_share_index,
        ca,
        config.astro_treasury_fee,
        state.total_ma_shares_staked,
    )->Some_0.1;
    let m1: Seq<ProxyMsg> = if config.astro_treasury_fee.atomics == 0 {
        Seq::empty()
    } else {
        seq![ProxyMsg::FeeTransfer { token: RewardToken::Astro, amount: afee }]
    };
    assert(fees_sent(m1, RewardToken::Proxy) == 0);
    if config.astro_treasury_fee.atomics != 0 {
        assert(m1.drop_last() =~= Seq::<ProxyMsg>::empty());
    }
    if config.proxy_token is Some {
        let pfee = accrue_spec(
            state.global_proxy_per_ma_share_index,
            cp,
            config.proxy_treasury_fee,
            state.total_ma_shares_staked,
        )->Some_0.1;
        if config.proxy_treasury_fee.atomics != 0 {
            let m2 = m1.push(ProxyMsg::FeeTransfer { token: RewardToken::Proxy, amount: pfee });
            assert(m2.drop_last() =~= m1);
        }
    }
}

/// Shares the rewards claimed since the last claim (the current ASTRO and proxy balances
/// less those before the claim) among the staked shares, after sending the treasury its
/// fee; nothing changes while no share is staked. A balance below its pre-claim value, or a
/// fee above its rewards, is an overflow error and changes nothing.
pub fn update_rewards_per_share(
    config: &Config,
    state: &mut State,
    astro_balance: u128,
    proxy_balance: u128,
) -> (r: Result<Vec<ProxyMsg>, ContractError>)
    requires
        rewards_update_fits(*config, *old(state), astro_balance, proxy_balance),
    ensures
        rewards_update(*config, *old(state), astro_balance, proxy_balance) matches Some((s, m))
            ==> (r matches Ok(msgs) && msgs@ == m && *final(state) == s),
        rewards_update(*config, *old(state), astro_balance, proxy_balance) is None ==> r == Err::<
            Vec<ProxyMsg>,
            ContractError,
        >(ContractError::Overflow) && *final(state) == *old(state),
{
    let mut msgs: Vec<ProxyMsg> = Vec::new();
    if state.total_ma_shares_staked == 0 {
        return Ok(msgs);
    }
    if astro_balance < state.astro_balance_before_claim {
        return Err(ContractError::Overflow);
    }
    let astro_rewards = astro_balance - state.astro_balance_before_claim;
    let (astro_index, astro_fee) = match accrue_index(
        state.global_astro_per_ma_share_index,
        astro_rewards,
        config.astro_treasury_fee,
        state.total_ma_shares_staked,
    ) {
        Ok(v) => v,
        Err(e) => {
            return Err(e);
        },
    };
    if !config.astro_treasury_fee.is_zero() {
        msgs.push(ProxyMsg::FeeTransfer { token: RewardToken::Astro, amount: astro_fee });
    }
    let mut new_state = *state;
    new_state.global_astro_per_ma_share_index = astro_index;
    if config.proxy_token.is_some() {
        if proxy_balance < state.proxy_balance_before_claim {
            return Err(ContractError::Overflow);
        }
        let proxy_rewards = proxy_balance - state.proxy_balance_before_claim;
        let (proxy_index, proxy_fee) = match accrue_index(
            state.global_proxy_per_ma_share_index,
            proxy_rewards,
            config.proxy_treasury_fee,
            state.total_ma_shares_staked,
        ) {
            Ok(v) => v,
            Err(e) => {
                return Err(e);
            },
        };
        if !config.proxy_treasury_fee.is_zero() {
            msgs.push(ProxyMsg::FeeTransfer { token: RewardToken::Proxy, amount: proxy_fee });
        }
        new_state.global_proxy_per_ma_share_index = proxy_index;
    }
    *state = new_state;
    proof {
        let m = (rewards_update(*config, *old(state), astro_balance, proxy_balance)->0).1;
        assert(msgs@ =~= m);
    }
    Ok(msgs)
}

/// The treasury fee messages that updating the indexes sends.
pub open spec fn fee_msgs(config: Config, state: State, astro_balance: u128, proxy_balance: u128) -> Seq<
    ProxyMsg,
> {
    (rewards_update(config, state, astro_balance, proxy_balance)->0).1
}

/// Records the reward balances before claiming, and claims from the generator when it has
/// pending ASTRO or proxy rewards. The returned messages are sent before the action that
/// follows the claim.
pub fn claim_rewards(
    config: &Config,
    state: &mut State,
    astro_balance: u128,
    proxy_balance: u128,
    pending: u128,
    pending_on_proxy: Option<u128>,
) -> (msgs: Vec<ProxyMsg>)
    requires
        (pending != 0 || (pending_on_proxy matches Some(p) && p != 0)) ==> config.proxy_token is Some,
    ensures
        (pending != 0 || (pending_on_proxy matches Some(p) && p != 0)) ==> msgs@ == seq![
            ProxyMsg::ClaimFromGenerator,
        ] && *final(state) == (State {
            astro_balance_before_claim: astro_balance,
            proxy_balance_before_claim: proxy_balance,
            ..*old(state)
        }),
        !(pending != 0 || (pending_on_proxy matches Some(p) && p != 0)) ==> msgs@.len() == 0
            && *final(state) == (State { astro_balance_before_claim: astro_balance, ..*old(state) }),
{
    let mut msgs: Vec<ProxyMsg> = Vec::new();
    state.astro_balance_before_claim = astro_balance;
    let proxy_pending = match pending_on_proxy {
        Some(p) => p != 0,
        None => false,
    };
    if pending != 0 || proxy_pending {
        state.proxy_balance_before_claim = proxy_balance;
        msgs.push(ProxyMsg::ClaimFromGenerator);
    }
    msgs
}

/// The state with its staked shares replaced.
pub open spec fn with_total(s: State, total: u128) -> State {
    State { total_ma_shares_staked: total, ..s }
}

/// The user with their staked shares replaced.
pub open spec fn with_staked(u: UserInfo, staked: u128) -> UserInfo {
    UserInfo { ma_tokens_staked: staked, ..u }
}

/// Stakes `lp_token_amount` LP tokens for a user credited with `ma_token_share` shares,
/// after the reward indexes are updated and the user's rewards accrued. The saved state is
/// the one read before the index update, with the new shares added: the index update
/// itself does not persist.
pub fn stake_with_astro_generator(
    config: &Config,
    state: &mut State,
    user_info: &mut UserInfo,
    astro_balance: u128,
    proxy_balance: u128,
    ma_token_share: u128,
    lp_token_amount: u128,
) -> (r: Result<Vec<ProxyMsg>, ContractError>)
    requires
        rewards_update_fits(*config, *old(state), astro_balance, proxy_balance),
    ensures
        rewards_update(*config, *old(state), astro_balance, proxy_balance) is None ==> r == Err::<
            Vec<ProxyMsg>,
            ContractError,
        >(ContractError::Overflow),
        rewards_update(*config, *old(state), astro_balance, proxy_balance) is Some
            && !old(state).is_stakable ==> r == Err::<Vec<ProxyMsg>, ContractError>(
            ContractError::StakingNotAllowed,
        ),
        rewards_update(*config, *old(state), astro_balance, proxy_balance) is Some
            && old(state).is_stakable && (!user_rewards_ok(*old(user_info), *old(state)) || old(
            state,
        ).total_ma_shares_staked + ma_token_share > u128::MAX || old(user_info).ma_tokens_staked
            + ma_token_share > u128::MAX) ==> r == Err::<Vec<ProxyMsg>, ContractError>(
            ContractError::Overflow,
        ),
        r is Err ==> *final(state) == *old(state) && *final(user_info) == *old(user_info),
        r matches Ok(msgs) ==> msgs@ == fee_msgs(*config, *old(state), astro_balance, proxy_balance).push(
            ProxyMsg::DepositToGenerator { amount: lp_token_amount },
        ) && *final(state) == with_total(
            *old(state),
            (old(state).total_ma_shares_staked + ma_token_share) as u128,
        ) && *final(user_info) == with_staked(
            rewarded_user(*old(user_info), *old(state)),
            (old(user_info).ma_tokens_staked + ma_token_share) as u128,
        ),
{
    let mut updated = *state;
    let mut msgs = match update_rewards_per_share(config, &mut updated, astro_balance, proxy_balance) {
        Ok(m) => m,
        Err(e) => {
            return Err(e);
        },
    };
    if !state.is_stakable {
        return Err(ContractError::StakingNotAllowed);
    }
    let rewarded = match update_user_rewards(*user_info, state) {
        Ok(u) => u,
        Err(e) => {
            return Err(e);
        },
    };
    let total = match state.total_ma_shares_staked.checked_add(ma_token_share) {
        Some(v) => v,
        None => {
            return Err(ContractError::Overflow);
        },
    };
    let staked = match user_info.ma_tokens_staked.checked_add(ma_token_share) {
        Some(v) => v,
        None => {
            return Err(ContractError::Overflow);
        },
    };
    state.total_ma_shares_staked = total;
    *user_info = rewarded;
    user_info.ma_tokens_staked = staked;
    msgs.push(ProxyMsg::DepositToGenerator { amount: lp_token_amount });
    Ok(msgs)
}

/// Pays out a user's claimable rewards, zeroing them.
fn pay_out_rewards(user_info: &mut UserInfo, msgs: &mut Vec<ProxyMsg>)
    ensures
        final(msgs)@ == old(msgs)@ + payout_msgs(*old(user_info)),
        *final(user_info) == (UserInfo { claimable_astro: 0, claimable_proxy: 0, ..*old(user_info) }),
{
    if user_info.claimable_astro != 0 {
        msgs.push(ProxyMsg::RewardTransfer { token: RewardToken::Astro, amount: user_info.claimable_astro });
        user_info.claimable_astro = 0;
    }
    if user_info.claimable_proxy != 0 {
        msgs.push(ProxyMsg::RewardTransfer { token: RewardToken::Proxy, amount: user_info.claimable_proxy });
        user_info.claimable_proxy = 0;
    }
    proof {
        assert(final(msgs)@ =~= old(msgs)@ + payout_msgs(*old(user_info)));
    }
}

/// The messages paying out a user's non-zero claimable rewards, ASTRO first.
pub open spec fn payout_msgs(u: UserInfo) -> Seq<ProxyMsg> {
    let a: Seq<ProxyMsg> = if u.claimable_astro != 0 {
        seq![ProxyMsg::RewardTransfer { token: RewardToken::Astro, amount: u.claimable_astro }]
    } else {
        Seq::empty()
    };
    if u.claimable_proxy != 0 {
        a.push(ProxyMsg::RewardTransfer { token: RewardToken::Proxy, amount: u.claimable_proxy })
    } else {
        a
    }
}

/// The messages that unstake `amount` LP tokens and send them to the red bank.
pub open spec fn withdraw_msgs(amount: u128) -> Seq<ProxyMsg> {
    seq![ProxyMsg::WithdrawFromGenerator { amount }, ProxyMsg::TransferLpTokensToRedBank]
}

/// An unstake passes the index and reward checks and, while staking is on, the share
/// subtraction: it reaches the reward payout.
pub open spec fn unstake_reaches_payout(
    config: Config,
    state: State,
    user_info: UserInfo,
    astro_balance: u128,
    proxy_balance: u128,
    ma_token_share: u128,
) -> bool {
    &&& rewards_update(config, state, astro_balance, proxy_balance) is Some
    &&& user_rewards_ok(user_info, state)
    &&& state.is_stakable ==> state.total_ma_shares_staked >= ma_token_share
        && user_info.ma_tokens_staked >= ma_token_share
}

/// Unstakes for a user after the reward indexes are updated (the saved state is the one
/// read before that update). While staking is on, the shares come off the user and the
/// total and `lp_token_amount` LP tokens are unstaked, paying rewards out if asked; once
/// staking is off, the user's stake is cleared, rewards are always paid out and no LP
/// tokens are unstaked here. The treasury fee transfers come first, then the reward
/// payouts, then the messages that unstake the LP tokens.
pub fn unstake_from_astro_generator(
    config: &Config,
    state: &mut State,
    user_info: &mut UserInfo,
    astro_balance: u128,
    proxy_balance: u128,
    ma_token_share: u128,
    lp_token_amount: u128,
    claim_rewards: bool,
) -> (r: Result<Vec<ProxyMsg>, ContractError>)
    requires
        rewards_update_fits(*config, *old(state), astro_balance, proxy_balance),
        unstake_reaches_payout(
            *config,
            *old(state),
            *old(user_info),
            astro_balance,
            proxy_balance,
            ma_token_share,
        ) && (claim_rewards || !old(state).is_stakable) && old(user_info).claimable_proxy != 0
            ==> config.proxy_token is Some,
    ensures
        !unstake_reaches_payout(
            *config,
            *old(state),
            *old(user_info),
            astro_balance,
            proxy_balance,
            ma_token_share,
        ) ==> r == Err::<Vec<ProxyMsg>, ContractError>(ContractError::Overflow) && *final(state)
            == *old(state) && *final(user_info) == *old(user_info),
        unstake_reaches_payout(
            *config,
            *old(state),
            *old(user_info),
            astro_balance,
            proxy_balance,
            ma_token_share,
        ) ==> (r matches Ok(msgs) && {
            let stakable = old(state).is_stakable;
            let lp = if stakable {
                lp_token_amount
            } else {
                0
            };
            let pays = claim_rewards || !stakable;
            let rewarded = rewarded_user(*old(user_info), *old(state));
            let staked_user = if stakable {
                with_staked(rewarded, (old(user_info).ma_tokens_staked - ma_token_share) as u128)
            } else {
                with_staked(rewarded, 0)
            };
            &&& *final(state) == (if stakable {
                with_total(*old(state), (old(state).total_ma_shares_staked - ma_token_share) as u128)
            } else {
                *old(state)
            })
            &&& *final(user_info) == (if pays {
                UserInfo { claimable_astro: 0, claimable_proxy: 0, ..staked_user }
            } else {
                staked_user
            })
            &&& msgs@ == fee_msgs(*config, *old(state), astro_balance, proxy_balance) + (if pays {
                payout_msgs(staked_user)
            } else {
                Seq::empty()
            }) + (if lp != 0 {
                withdraw_msgs(lp)
            } else {
                Seq::empty()
            })
        }),
{
    let mut updated = *state;
    let mut msgs = match update_rewards_per_share(config, &mut updated, astro_balance, proxy_balance) {
        Ok(m) => m,
        Err(e) => {
            return Err(e);
        },
    };
    let rewarded = match update_user_rewards(*user_info, state) {
        Ok(u) => u,
        Err(e) => {
            return Err(e);
        },
    };
    let mut lp_token_amount = lp_token_amount;
    let mut claim_rewards = claim_rewards;
    let mut new_state = *state;
    let mut new_user = rewarded;
    if state.is_stakable {
        if state.total_ma_shares_staked < ma_token_share || user_info.ma_tokens_staked < ma_token_share {
            return Err(ContractError::Overflow);
        }
        new_state.total_ma_shares_staked = state.total_ma_shares_staked - ma_token_share;
        new_user.ma_tokens_staked = user_info.ma_tokens_staked - ma_token_share;
    } else {
        lp_token_amount = 0;
        claim_rewards = true;
        new_user.ma_tokens_staked = 0;
    }
    if claim_rewards {
        pay_out_rewards(&mut new_user, &mut msgs);
    }
    *state = new_state;
    *user_info = new_user;
    let ghost before = msgs@;
    if lp_token_amount != 0 {
        msgs.push(ProxyMsg::WithdrawFromGenerator { amount: lp_token_amount });
        msgs.push(ProxyMsg::TransferLpTokensToRedBank);
    }
    proof {
        if lp_token_amount != 0 {
            assert(msgs@ =~= before + withdraw_msgs(lp_token_amount));
        } else {
            assert(msgs@ =~= before + Seq::<ProxyMsg>::empty());
        }
    }
    Ok(msgs)
}

/// An unstake before a burn passes the index and reward checks and, while staking is on,
/// the share subtraction.
pub open spec fn burn_reaches_payout(
    config: Config,
    state: State,
    user_info: UserInfo,
    astro_balance: u128,
    proxy_balance: u128,
    ma_shares_to_burn: u128,
) -> bool {
    unstake_reaches_payout(config, state, user_info, astro_balance, proxy_balance, ma_shares_to_burn)
}

/// Unstakes before a user's maTokens are burnt, after the reward indexes are updated (the
/// saved state is the one read before that update), and always pays out the user's
/// rewards. While staking is on, the burnt shares come off the user and the total and
/// their underlying LP amount `underlying_of_burn` is unstaked; once staking is off, the
/// user's whole stake is cleared and its underlying amount `underlying_of_stake` is
/// unstaked. The treasury fee transfers come first, then the reward payouts, then the
/// messages that unstake the LP tokens.
pub fn unstake_before_burn(
    config: &Config,
    state: &mut State,
    user_info: &mut UserInfo,
    astro_balance: u128,
    proxy_balance: u128,
    ma_shares_to_burn: u128,
    underlying_of_burn: u128,
    underlying_of_stake: u128,
) -> (r: Result<Vec<ProxyMsg>, ContractError>)
    requires
        rewards_update_fits(*config, *old(state), astro_balance, proxy_balance),
        burn_reaches_payout(
            *config,
            *old(state),
            *old(user_info),
            astro_balance,
            proxy_balance,
            ma_shares_to_burn,
        ) && old(user_info).claimable_proxy != 0 ==> config.proxy_token is Some,
    ensures
        !burn_reaches_payout(
            *config,
            *old(state),
            *old(user_info),
            astro_balance,
            proxy_balance,
            ma_shares_to_burn,
        ) ==> r == Err::<Vec<ProxyMsg>, ContractError>(ContractError::Overflow) && *final(state)
            == *old(state) && *final(user_info) == *old(user_info),
        burn_reaches_payout(
            *config,
            *old(state),
            *old(user_info),
            astro_balance,
            proxy_balance,
            ma_shares_to_burn,
        ) ==> (r matches Ok(msgs) && {
            let stakable = old(state).is_stakable;
            let underlying = if stakable {
                underlying_of_burn
            } else {
                underlying_of_stake
            };
            let rewarded = rewarded_user(*old(user_info), *old(state));
            let staked_user = if stakable {
                with_staked(rewarded, (old(user_info).ma_tokens_staked - ma_shares_to_burn) as u128)
            } else {
                with_staked(rewarded, 0)
            };
            &&& *final(state) == (if stakable {
                with_total(*old(state), (old(state).total_ma_shares_staked - ma_shares_to_burn) as u128)
            } else {
                *old(state)
            })
            &&& *final(user_info) == (UserInfo { claimable_astro: 0, claimable_proxy: 0, ..staked_user })
            &&& msgs@ == fee_msgs(*config, *old(state), astro_balance, proxy_balance) + payout_msgs(
                staked_user,
            ) + (if underlying != 0 {
                withdraw_msgs(underlying)
            } else {
                Seq::empty()
            })
        }),
{
    let mut updated = *state;
    let mut msgs = match update_rewards_per_share(config, &mut updated, astro_balance, proxy_balance) {
        Ok(m) => m,
        Err(e) => {
            return Err(e);
        },
    };
    let rewarded = match update_user_rewards(*user_info, state) {
        Ok(u) => u,
        Err(e) => {
            return Err(e);
        },
    };
    let mut underlying = underlying_of_burn;
    let mut new_state = *state;
    let mut new_user = rewarded;
    if state.is_stakable {
        if state.total_ma_shares_staked < ma_shares_to_burn || user_info.ma_tokens_staked
            < ma_shares_to_burn {
            return Err(ContractError::Overflow);
        }
        new_state.total_ma_shares_staked = state.total_ma_shares_staked - ma_shares_to_burn;
        new_user.ma_tokens_staked = user_info.ma_tokens_staked - ma_shares_to_burn;
    } else {
        underlying = underlying_of_stake;
        new_user.ma_tokens_staked = 0;
    }
    pay_out_rewards(&mut new_user, &mut msgs);
    *state = new_state;
    *user_info = new_user;
    let ghost before = msgs@;
    if underlying != 0 {
        msgs.push(ProxyMsg::WithdrawFromGenerator { amount: underlying });
        msgs.push(ProxyMsg::TransferLpTokensToRedBank);
    }
    proof {
        if underlying != 0 {
            assert(msgs@ =~= before + withdraw_msgs(underlying));
        } else {
            assert(msgs@ =~= before + Seq::<ProxyMsg>::empty());
        }
    }
    Ok(msgs)
}

/// Updates the reward indexes with the current fees, then sets the new treasury fees.
pub fn update_fee(
    config: &mut Config,
    state: &mut State,
    astro_balance: u128,
    proxy_balance: u128,
    astro_treasury_fee: Decimal,
    proxy_treasury_fee: Decimal,
) -> (r: Result<Vec<ProxyMsg>, ContractError>)
    requires
        rewards_update_fits(*old(config), *old(state), astro_balance, proxy_balance),
    ensures
        rewards_update(*old(config), *old(state), astro_balance, proxy_balance) is None ==> r
            == Err::<Vec<ProxyMsg>, ContractError>(ContractError::Overflow) && *final(state) == *old(
            state,
        ) && *final(config) == *old(config),
        rewards_update(*old(config), *old(state), astro_balance, proxy_balance) matches Some((s, m))
            ==> (r matches Ok(msgs) && msgs@ == m && *final(state) == s && *final(config) == (Config {
            astro_treasury_fee,
            proxy_treasury_fee,
            ..*old(config)
        })),
{
    let msgs = match update_rewards_per_share(config, state, astro_balance, proxy_balance) {
        Ok(m) => m,
        Err(e) => {
            return Err(e);
        },
    };
    config.astro_treasury_fee = astro_treasury_fee;
    config.proxy_treasury_fee = proxy_treasury_fee;
    Ok(msgs)
}

/// Moving shares between users passes every check.
pub open spec fn share_move_ok(
    config: Config,
    state: State,
    from_user: UserInfo,
    to_user: UserInfo,
    astro_balance: u128,
    proxy_balance: u128,
    ma_token_share: u128,
) -> bool {
    &&& rewards_update(config, state, astro_balance, proxy_balance) is Some
    &&& user_rewards_ok(from_user, state)
    &&& from_user.ma_tokens_staked >= ma_token_share
    &&& to_user.ma_tokens_staked + ma_token_share <= u128::MAX
}

/// Moves `ma_token_share` staked shares from one user to another when maTokens change hands,
/// after the sender's rewards are accrued. The global state is unchanged: the index update
/// is not kept.
pub fn update_on_transfer(
    config: &Config,
    state: &State,
    from_user_info: &mut UserInfo,
    to_user_info: &mut UserInfo,
    astro_balance: u128,
    proxy_balance: u128,
    ma_token_share: u128,
) -> (r: Result<Vec<ProxyMsg>, ContractError>)
    requires
        rewards_update_fits(*config, *state, astro_balance, proxy_balance),
    ensures
        !share_move_ok(*config, *state, *old(from_user_info), *old(to_user_info), astro_balance, proxy_balance, ma_token_share)
            ==> r == Err::<Vec<ProxyMsg>, ContractError>(ContractError::Overflow),
        r is Err ==> *final(from_user_info) == *old(from_user_info),
        r is Err ==> *final(to_user_info) == *old(to_user_info),
        share_move_ok(*config, *state, *old(from_user_info), *old(to_user_info), astro_balance, proxy_balance, ma_token_share)
            ==> r is Ok,
        r matches Ok(msgs) ==> msgs@ == fee_msgs(*config, *state, astro_balance, proxy_balance),
        r is Ok ==> *final(from_user_info) == with_staked(
            rewarded_user(*old(from_user_info), *state),
            (old(from_user_info).ma_tokens_staked - ma_token_share) as u128,
        ),
        r is Ok ==> *final(to_user_info) == with_staked(
            *old(to_user_info),
            (old(to_user_info).ma_tokens_staked + ma_token_share) as u128,
        ),
{
    let mut updated = *state;
    let msgs = match update_rewards_per_share(config, &mut updated, astro_balance, proxy_balance) {
        Ok(m) => m,
        Err(e) => {
            return Err(e);
        },
    };
    let rewarded = match update_user_rewards(*from_user_info, state) {
        Ok(u) => u,
        Err(e) => {
            return Err(e);
        },
    };
    if from_user_info.ma_tokens_staked < ma_token_share {
        return Err(ContractError::Overflow);
    }
    let to_staked = match to_user_info.ma_tokens_staked.checked_add(ma_token_share) {
        Some(v) => v,
        None => {
            return Err(ContractError::Overflow);
        },
    };
    let from_staked = from_user_info.ma_tokens_staked - ma_token_share;
    *from_user_info = rewarded;
    from_user_info.ma_tokens_staked = from_staked;
    to_user_info.ma_tokens_staked = to_staked;
    Ok(msgs)
}

/// Unstakes everything and switches staking off, after the reward indexes are updated (the
/// saved state is the one read before that update). The treasury fee transfers come first,
/// then, when LP tokens are staked, the messages that unstake them.
pub fn emergency_withdraw(
    config: &Config,
    state: &mut State,
    astro_balance: u128,
    proxy_balance: u128,
    total_staked_amount: u128,
) -> (r: Result<Vec<ProxyMsg>, ContractError>)
    requires
        rewards_update_fits(*config, *old(state), astro_balance, proxy_balance),
    ensures
        rewards_update(*config, *old(state), astro_balance, proxy_balance) is None ==> r == Err::<
            Vec<ProxyMsg>,
            ContractError,
        >(ContractError::Overflow) && *final(state) == *old(state),
        rewards_update(*config, *old(state), astro_balance, proxy_balance) is Some ==> (r matches Ok(
            msgs,
        ) && *final(state) == (State {
            total_ma_shares_staked: 0,
            is_stakable: false,
            ..*old(state)
        }) && msgs@ == fee_msgs(*config, *old(state), astro_balance, proxy_balance) + (
        if total_staked_amount != 0 {
            withdraw_msgs(total_staked_amount)
        } else {
            Seq::empty()
        })),
{
    let mut updated = *state;
    let mut msgs = match update_rewards_per_share(config, &mut updated, astro_balance, proxy_balance) {
        Ok(m) => m,
        Err(e) => {
            return Err(e);
        },
    };
    state.total_ma_shares_staked = 0;
    state.is_stakable = false;
    let ghost before = msgs@;
    if total_staked_amount != 0 {
        msgs.push(ProxyMsg::WithdrawFromGenerator { amount: total_staked_amount });
        msgs.push(ProxyMsg::TransferLpTokensToRedBank);
    }
    proof {
        if total_staked_amount != 0 {
            assert(msgs@ =~= before + withdraw_msgs(total_staked_amount));
        } else {
            assert(msgs@ =~= before + Seq::<ProxyMsg>::empty());
        }
    }
    Ok(msgs)
}

/// LP tokens to send to the red bank: the growth of the balance since `prev_lp_balance`,
/// or an overflow error if it shrank.
pub fn transfer_lp_tokens_to_rb(cur_lp_balance: u128, prev_lp_balance: u128) -> (r: Result<
    u128,
    ContractError,
>)
    ensures
        cur_lp_balance >= prev_lp_balance ==> r == Ok::<u128, ContractError>(
            (cur_lp_balance - prev_lp_balance) as u128,
        ),
        cur_lp_balance < prev_lp_balance ==> r == Err::<u128, ContractError>(ContractError::Overflow),
{
    match cur_lp_balance.checked_sub(prev_lp_balance) {
        Some(v) => Ok(v),
        None => Err(ContractError::Overflow),
    }
}

/// LP tokens withdrawn since `prev_balance`, to be sent on to the account.
pub fn transfer_tokens_after_withdraw(balance: u128, prev_balance: u128) -> (r: u128)
    requires
        balance >= prev_balance,
    ensures
        r == balance - prev_balance,
{
    balance - prev_balance
}

/// The global state as queried.
#[derive(Debug, Clone, Copy, PartialEq, Eq, Structural)]
pub struct StateResponse {
    pub is_collateral: bool,
    pub is_stakable: bool,
    pub total_ma_shares_staked: u128,
    pub global_astro_per_ma_share_index: Decimal,
    pub global_proxy_per_ma_share_index: Decimal,
}

/// A user's position as queried.
#[derive(Debug, Clone, Copy, PartialEq, Eq, Structural)]
pub struct UserInfoResponse {
    pub ma_tokens_staked: u128,
    pub underlying_tokens_staked: u128,
    pub claimable_astro: u128,
    pub claimable_proxy: u128,
    pub is_collateral: bool,
}

/// Pending proxy rewards, zero when the generator reports none.
pub open spec fn proxy_pending(pending_on_proxy: Option<u128>) -> u128 {
    match pending_on_proxy {
        Some(p) => p,
        None => 0,
    }
}

/// Fee rate the queries apply to pending proxy rewards: none when the proxy fee is zero,
/// otherwise the ASTRO fee rate.
pub open spec fn queried_proxy_fee(config: Config) -> Decimal {
    if config.proxy_treasury_fee.atomics == 0 {
        Decimal { atomics: 0 }
    } else {
        config.astro_treasury_fee
    }
}

/// ASTRO index once pending rewards are counted, or `None` when the fee exceeds them.
pub open spec fn pending_astro_index(config: Config, state: State, pending: u128) -> Option<Decimal> {
    if pending == 0 {
        Some(state.global_astro_per_ma_share_index)
    } else {
        match accrue_spec(
            state.global_astro_per_ma_share_index,
            pending,
            config.astro_treasury_fee,
            state.total_ma_shares_staked,
        ) {
            Some((i, _)) => Some(i),
            None => None,
        }
    }
}

/// Proxy index once pending rewards are counted, or `None` when the fee exceeds them.
pub open spec fn pending_proxy_index(config: Config, state: State, pending_on_proxy: Option<u128>) -> Option<
    Decimal,
> {
    if proxy_pending(pending_on_proxy) == 0 {
        Some(state.global_proxy_per_ma_share_index)
    } else {
        match accrue_spec(
            state.global_proxy_per_ma_share_index,
            proxy_pending(pending_on_proxy),
            queried_proxy_fee(config),
            state.total_ma_shares_staked,
        ) {
            Some((i, _)) => Some(i),
            None => None,
        }
    }
}

/// Counting pending rewards in the queries cannot overflow or divide by zero.
pub open spec fn pending_fits(config: Config, state: State, pending: u128, pending_on_proxy: Option<u128>) -> bool {
    &&& pending != 0 ==> accrue_fits(
        state.global_astro_per_ma_share_index,
        pending,
        config.astro_treasury_fee,
        state.total_ma_shares_staked,
    )
    &&& pending_astro_index(config, state, pending) is Some && proxy_pending(pending_on_proxy) != 0
        ==> accrue_fits(
        state.global_proxy_per_ma_share_index,
        proxy_pending(pending_on_proxy),
        queried_proxy_fee(config),
        state.total_ma_shares_staked,
    )
}

/// Index with pending rewards counted, when there are any.
fn index_with_pending(index: Decimal, pending: u128, rate: Decimal, total: u128) -> (r: Result<
    Decimal,
    ContractError,
>)
    requires
        pending != 0 ==> accrue_fits(index, pending, rate, total),
    ensures
        pending == 0 ==> r == Ok::<Decimal, ContractError>(index),
        pending != 0 ==> (accrue_spec(index, pending, rate, total) matches Some((i, _)) ==> r == Ok::<
            Decimal,
            ContractError,
        >(i)),
        pending != 0 ==> (accrue_spec(index, pending, rate, total) is None ==> r == Err::<
            Decimal,
            ContractError,
        >(ContractError::Overflow)),
{
    if pending == 0 {
        return Ok(index);
    }
    match accrue_index(index, pending, rate, total) {
        Ok((i, _)) => Ok(i),
        Err(e) => Err(e),
    }
}

/// The fee rate applied to pending proxy rewards by the queries.
fn queried_proxy_fee_rate(config: &Config) -> (d: Decimal)
    ensures
        d == queried_proxy_fee(*config),
{
    if config.proxy_treasury_fee.is_zero() {
        Decimal::zero()
    } else {
        config.astro_treasury_fee
    }
}

/// The global state with the generator's pending rewards counted in the indexes, less
/// fees (the proxy fee is charged at the ASTRO fee rate).
pub fn query_state(config: &Config, state: &State, pending: u128, pending_on_proxy: Option<u128>) -> (r:
    Result<StateResponse, ContractError>)
    requires
        pending_fits(*config, *state, pending, pending_on_proxy),
    ensures
        pending_astro_index(*config, *state, pending) is None ==> r == Err::<
            StateResponse,
            ContractError,
        >(ContractError::Overflow),
        pending_astro_index(*config, *state, pending) is Some && pending_proxy_index(
            *config,
            *state,
            pending_on_proxy,
        ) is None ==> r == Err::<StateResponse, ContractError>(ContractError::Overflow),
        pending_astro_index(*config, *state, pending) matches Some(a) ==> (pending_proxy_index(
            *config,
            *state,
            pending_on_proxy,
        ) matches Some(p) ==> r == Ok::<StateResponse, ContractError>(
            (StateResponse {
                is_collateral: state.is_collateral,
                is_stakable: state.is_stakable,
                total_ma_shares_staked: state.total_ma_shares_staked,
                global_astro_per_ma_share_index: a,
                global_proxy_per_ma_share_index: p,
            }),
        )),
{
    let astro_index = match index_with_pending(
        state.global_astro_per_ma_share_index,
        pending,
        config.astro_treasury_fee,
        state.total_ma_shares_staked,
    ) {
        Ok(i) => i,
        Err(e) => {
            return Err(e);
        },
    };
    let proxy_pending = match pending_on_proxy {
        Some(p) => p,
        None => 0,
    };
    let proxy_index = match index_with_pending(
        state.global_proxy_per_ma_share_index,
        proxy_pending,
        queried_proxy_fee_rate(config),
        state.total_ma_shares_staked,
    ) {
        Ok(i) => i,
        Err(e) => {
            return Err(e);
        },
    };
    Ok(
        StateResponse {
            is_collateral: state.is_collateral,
            is_stakable: state.is_stakable,
            total_ma_shares_staked: state.total_ma_shares_staked,
            global_astro_per_ma_share_index: astro_index,
            global_proxy_per_ma_share_index: proxy_index,
        },
    )
}

/// Claimable amount after pending rewards accrue to `staked` shares: measured from the new
/// global index to the user's index for that token, or `None` on underflow or overflow.
pub open spec fn pending_claimable(
    new_index: Option<Decimal>,
    pending: u128,
    user_index: Decimal,
    staked: u128,
    claimable: u128,
) -> Option<u128> {
    if pending == 0 {
        Some(claimable)
    } else {
        match new_index {
            Some(i) => accrued(i, user_index, staked, claimable),
            None => None,
        }
    }
}

/// The products the user query takes fit in 128 bits.
pub open spec fn user_products_fit(
    new_index: Option<Decimal>,
    pending: u128,
    user_index: Decimal,
    staked: u128,
) -> bool {
    pending != 0 ==> (new_index matches Some(i) ==> mul_dec(staked, i) <= u128::MAX
        && mul_dec(staked, user_index) <= u128::MAX)
}

/// The user query cannot overflow where the contract would panic.
pub open spec fn user_query_fits(
    config: Config,
    state: State,
    user_info: UserInfo,
    pending: u128,
    pending_on_proxy: Option<u128>,
) -> bool {
    state.total_ma_shares_staked != 0 && user_info.ma_tokens_staked != 0 ==> {
        &&& pending_fits(config, state, pending, pending_on_proxy)
        &&& user_products_fit(
            pending_astro_index(config, state, pending),
            pending,
            user_info.user_astro_per_ma_share_index,
            user_info.ma_tokens_staked,
        )
        &&& pending_claimable(
            pending_astro_index(config, state, pending),
            pending,
            user_info.user_astro_per_ma_share_index,
            user_info.ma_tokens_staked,
            user_info.claimable_astro,
        ) is Some ==> user_products_fit(
            pending_proxy_index(config, state, pending_on_proxy),
            proxy_pending(pending_on_proxy),
            user_info.user_proxy_per_ma_share_index,
            user_info.ma_tokens_staked,
        )
    }
}

/// Rewards accrued from pending rewards at `new_index`, added to `claimable`.
fn claimable_with_pending(
    new_index: Decimal,
    pending: u128,
    user_index: Decimal,
    staked: u128,
    claimable: u128,
) -> (r: Result<u128, ContractError>)
    requires
        user_products_fit(Some(new_index), pending, user_index, staked),
    ensures
        pending_claimable(Some(new_index), pending, user_index, staked, claimable) matches Some(v)
            ==> r == Ok::<u128, ContractError>(v),
        pending_claimable(Some(new_index), pending, user_index, staked, claimable) is None ==> r
            == Err::<u128, ContractError>(ContractError::Overflow),
{
    if pending == 0 {
        return Ok(claimable);
    }
    let g = new_index.mul_uint(staked);
    let u = user_index.mul_uint(staked);
    if g < u {
        return Err(ContractError::Overflow);
    }
    match claimable.checked_add(g - u) {
        Some(v) => Ok(v),
        None => Err(ContractError::Overflow),
    }
}

/// A user's position with the generator's pending rewards counted, given the underlying LP
/// amount of their staked shares. Nothing is counted while no share, or none of theirs, is
/// staked.
pub fn query_user_info(
    config: &Config,
    state: &State,
    user_info: &UserInfo,
    underlying_tokens_staked: u128,
    pending: u128,
    pending_on_proxy: Option<u128>,
) -> (r: Result<UserInfoResponse, ContractError>)
    requires
        user_query_fits(*config, *state, *user_info, pending, pending_on_proxy),
    ensures
        r is Ok ==> r->Ok_0.ma_tokens_staked == user_info.ma_tokens_staked
            && r->Ok_0.underlying_tokens_staked == underlying_tokens_staked
            && r->Ok_0.is_collateral == state.is_collateral,
        state.total_ma_shares_staked == 0 || user_info.ma_tokens_staked == 0 ==> (r matches Ok(resp)
            && resp.claimable_astro == user_info.claimable_astro && resp.claimable_proxy
            == user_info.claimable_proxy),
        state.total_ma_shares_staked != 0 && user_info.ma_tokens_staked != 0 ==> ({
            let astro = pending_claimable(
                pending_astro_index(*config, *state, pending),
                pending,
                user_info.user_astro_per_ma_share_index,
                user_info.ma_tokens_staked,
                user_info.claimable_astro,
            );
            let proxy = pending_claimable(
                pending_proxy_index(*config, *state, pending_on_proxy),
                proxy_pending(pending_on_proxy),
                user_info.user_proxy_per_ma_share_index,
                user_info.ma_tokens_staked,
                user_info.claimable_proxy,
            );
            &&& astro is None ==> r == Err::<UserInfoResponse, ContractError>(ContractError::Overflow)
            &&& astro is Some && proxy is None ==> r == Err::<UserInfoResponse, ContractError>(
                ContractError::Overflow,
            )
            &&& astro matches Some(a) ==> (proxy matches Some(p) ==> (r matches Ok(resp)
                && resp.claimable_astro == a && resp.claimable_proxy == p))
        }),
{
    let mut claimable_astro = user_info.claimable_astro;
    let mut claimable_proxy = user_info.claimable_proxy;
    if state.total_ma_shares_staked != 0 && user_info.ma_tokens_staked != 0 {
        if pending != 0 {
            let astro_index = match index_with_pending(
                state.global_astro_per_ma_share_index,
                pending,
                config.astro_treasury_fee,
                state.total_ma_shares_staked,
            ) {
                Ok(i) => i,
                Err(e) => {
                    return Err(e);
                },
            };
            claimable_astro = match claimable_with_pending(
                astro_index,
                pending,
                user_info.user_astro_per_ma_share_index,
                user_info.ma_tokens_staked,
                claimable_astro,
            ) {
                Ok(v) => v,
                Err(e) => {
                    return Err(e);
                },
            };
        }
        let proxy_pending = match pending_on_proxy {
            Some(p) => p,
            None => 0,
        };
        if proxy_pending != 0 {
            let proxy_index = match index_with_pending(
                state.global_proxy_per_ma_share_index,
                proxy_pending,
                queried_proxy_fee_rate(config),
                state.total_ma_shares_staked,
            ) {
                Ok(i) => i,
                Err(e) => {
                    return Err(e);
                },
            };
            claimable_proxy = match claimable_with_pending(
                proxy_index,
                proxy_pending,
                user_info.user_proxy_per_ma_share_index,
                user_info.ma_tokens_staked,
                claimable_proxy,
            ) {
                Ok(v) => v,
                Err(e) => {
                    return Err(e);
                },
            };
        }
    }
    Ok(
        UserInfoResponse {
            ma_tokens_staked: user_info.ma_tokens_staked,
            underlying_tokens_staked,
            claimable_astro,
            claimable_proxy,
            is_collateral: state.is_collateral,
        },
    )
}

/// An entry point of the proxy, as far as who may call it.
#[derive(Debug)]
pub enum ProxyAction {
    /// LP tokens arrive through the LP token contract, sent on by `cw20_sender`.
    Receive { cw20_sender: String },
    Withdraw,
    SetMaToken,
    UpdateFee,
    UpdateOnTransfer,
    UnstakeBeforeBurn,
    EmergencyWithdraw,
    /// A callback, which only the proxy itself at `contract_address` may send.
    Callback { contract_address: String },
}

/// Whether `sender` may perform `action`.
pub open spec fn authorized(config: Config, sender: Seq<char>, action: ProxyAction) -> bool {
    match action {
        ProxyAction::Receive { cw20_sender } => cw20_sender@ == config.redbank_addr@ && sender
            == config.lp_token_addr@,
        ProxyAction::UpdateOnTransfer => sender == config.redbank_addr@ || (config.ma_token_addr matches Some(
            m,
        ) && sender == m@),
        ProxyAction::UnstakeBeforeBurn => sender == config.ma_token_addr.unwrap()@,
        ProxyAction::Callback { contract_address } => sender == contract_address@,
        _ => sender == config.redbank_addr@,
    }
}

/// Checks who may call an entry point: the red bank for most; the red bank or the maToken
/// for share moves on transfer; the maToken before a burn; the LP token, relaying the red
/// bank, for deposits; the proxy itself for callbacks.
pub fn authorize_execute(config: &Config, sender: &String, action: &ProxyAction) -> (r: Result<
    (),
    ContractError,
>)
    requires
        *action == ProxyAction::UnstakeBeforeBurn ==> config.ma_token_addr is Some,
    ensures
        authorized(*config, sender@, *action) ==> r == Ok::<(), ContractError>(()),
        !authorized(*config, sender@, *action) ==> r == Err::<(), ContractError>(
            ContractError::Unauthorized,
        ),
{
    let ok = match action {
        ProxyAction::Receive { cw20_sender } => *cw20_sender == config.redbank_addr && *sender
            == config.lp_token_addr,
        ProxyAction::UpdateOnTransfer => {
            if *sender == config.redbank_addr {
                true
            } else {
                match &config.ma_token_addr {
                    Some(m) => *sender == *m,
                    None => false,
                }
            }
        },
        ProxyAction::UnstakeBeforeBurn => match &config.ma_token_addr {
            Some(m) => *sender == *m,
            None => false,
        },
        ProxyAction::Callback { contract_address } => *sender == *contract_address,
        _ => *sender == config.redbank_addr,
    };
    if ok {
        Ok(())
    } else {
        Err(ContractError::Unauthorized)
    }
}

} // verus!
