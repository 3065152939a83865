//! Governance: proposals are submitted with a Mars deposit, voted on with xMars balances,
//! ended by quorum and threshold, and executed within a window after a delay.

use vstd::prelude::*;

use crate::error::{is_generic_err, is_invalid_proposal_err, ContractError};
use crate::math::{mul_div, Decimal, DECIMAL_FRACTIONAL};
use crate::util::{all_conditions_valid, all_hold, byte_len, conditions_message};

verus! {

/// Shortest title accepted, in bytes.
pub const MIN_TITLE_LENGTH: usize = 4;
/// Longest title accepted, in bytes.
pub const MAX_TITLE_LENGTH: usize = 64;
/// Shortest description accepted, in bytes.
pub const MIN_DESC_LENGTH: usize = 4;
/// Longest description accepted, in bytes.
pub const MAX_DESC_LENGTH: usize = 1024;
/// Shortest link accepted, in bytes.
pub const MIN_LINK_LENGTH: usize = 12;
/// Longest link accepted, in bytes.
pub const MAX_LINK_LENGTH: usize = 128;

/// Global poll counter of the staking basecamp.
#[derive(Debug, Clone, Copy, PartialEq, Eq, Structural)]
pub struct Basecamp {
    /// Number of polls.
    pub total_polls: u64,
}

/// Life cycle of a basecamp poll.
#[derive(Debug, Clone, Copy, PartialEq, Eq, Structural)]
pub enum PollStatus {
    Active,
    Passed,
    Rejected,
    Executed,
    Expired,
}

/// A vote on a basecamp poll.
#[derive(Debug, Clone, Copy, PartialEq, Eq, Structural)]
pub enum VoteOption {
    For,
    Against,
}

/// Global state of the council.
#[derive(Debug, Clone, Copy, PartialEq, Eq, Structural)]
pub struct GlobalState {
    /// Number of proposals submitted so far; the last one has this id.
    pub proposal_count: u64,
}

/// Life cycle of a proposal.
#[derive(Debug, Clone, Copy, PartialEq, Eq, Structural)]
pub enum ProposalStatus {
    Active,
    Passed,
    Rejected,
    Executed,
}

/// A vote on a proposal.
#[derive(Debug, Clone, Copy, PartialEq, Eq, Structural)]
pub enum ProposalVoteOption {
    For,
    Against,
}

impl ProposalVoteOption {
    /// The option as it is logged: `for` or `against`.
    pub fn to_string(&self) -> (s: String)
        ensures
            *self == ProposalVoteOption::For ==> s@ == "for"@,
            *self == ProposalVoteOption::Against ==> s@ == "against"@,
    {
        match self {
            ProposalVoteOption::For => "for".to_owned(),
            ProposalVoteOption::Against => "against".to_owned(),
        }
    }
}

/// Order in which proposal votes are listed.
#[derive(Debug, Clone, Copy, PartialEq, Eq, Structural)]
pub enum ProposalVotesSort {
    Ascending,
    Descending,
}

/// Migration message; migrations take no arguments.
#[derive(Debug, Clone, Copy, PartialEq, Eq, Structural)]
pub struct MigrateMsg {}

/// Governance configuration. An address that is not set yet is the empty string.
#[derive(Debug)]
pub struct Config {
    pub owner: String,
    pub mars_token_address: String,
    pub xmars_token_address: String,
    pub staking_contract_address: String,
    pub insurance_fund_contract_address: String,
    /// Blocks during which a proposal is open for votes.
    pub proposal_voting_period: u64,
    /// Blocks after the end of voting before a passed proposal may be executed.
    pub proposal_effective_delay: u64,
    /// Blocks after the delay during which a passed proposal may still be executed.
    pub proposal_expiration_period: u64,
    /// Mars deposit required to submit a proposal.
    pub proposal_required_deposit: u128,
    /// Share of the total voting power that must vote.
    pub proposal_required_quorum: Decimal,
    /// Share of the votes cast that must be in favour.
    pub proposal_required_threshold: Decimal,
}

/// Configuration parameters given at instantiation or in an update; `None` keeps the
/// current value.
#[derive(Debug)]
pub struct CreateOrUpdateConfig {
    pub xmars_token_address: Option<String>,
    pub staking_contract_address: Option<String>,
    pub insurance_fund_contract_address: Option<String>,
    pub proposal_voting_period: Option<u64>,
    pub proposal_effective_delay: Option<u64>,
    pub proposal_expiration_period: Option<u64>,
    pub proposal_required_deposit: Option<u128>,
    pub proposal_required_quorum: Option<Decimal>,
    pub proposal_required_threshold: Option<Decimal>,
}

/// The two decimal parameters that must not exceed one, with their names.
pub open spec fn config_conditions_ok(quorum: Decimal, threshold: Decimal) -> bool {
    quorum.atomics <= DECIMAL_FRACTIONAL && threshold.atomics <= DECIMAL_FRACTIONAL
}

/// The message reporting out-of-range quorum or threshold.
pub open spec fn config_error_message(quorum: Decimal, threshold: Decimal) -> Seq<char> {
    let q_name = "proposal_required_quorum"@;
    let t_name = "proposal_required_threshold"@;
    let all = q_name + ", "@ + t_name;
    let failed = if quorum.atomics > DECIMAL_FRACTIONAL && threshold.atomics > DECIMAL_FRACTIONAL {
        all
    } else if quorum.atomics > DECIMAL_FRACTIONAL {
        q_name
    } else {
        t_name
    };
    "["@ + all + "] should be less or equal 1. Invalid params: ["@ + failed + "]"@
}

impl Config {
    /// Checks that the required quorum and threshold are at most one.
    pub fn validate(&self) -> (r: Result<(), ContractError>)
        ensures
            config_conditions_ok(self.proposal_required_quorum, self.proposal_required_threshold)
                ==> r == Ok::<(), ContractError>(()),
            !config_conditions_ok(self.proposal_required_quorum, self.proposal_required_threshold)
                ==> is_generic_err(
                r,
                config_error_message(self.proposal_required_quorum, self.proposal_required_threshold),
            ),
    {
        let q_name = "proposal_required_quorum".to_owned();
        let t_name = "proposal_required_threshold".to_owned();
        let conditions = vec![
            (Config::less_or_equal_one(&self.proposal_required_quorum), q_name),
            (Config::less_or_equal_one(&self.proposal_required_threshold), t_name),
        ];
        let r = all_conditions_valid(&conditions);
        proof {
            let c = conditions@;
            assert(all_hold(c) == config_conditions_ok(
                self.proposal_required_quorum,
                self.proposal_required_threshold,
            )) by {
                if !c[0].0 {
                    assert(!all_hold(c));
                }
                if !c[1].0 {
                    assert(!all_hold(c));
                }
            }
            if !all_hold(c) {
                reveal_with_fuel(crate::util::join, 3);
                reveal_with_fuel(crate::util::failed_names, 3);
                assert(c.drop_last().drop_last() =~= Seq::<(bool, String)>::empty());
                let names = crate::util::condition_names(c);
                assert(names.drop_last() =~= seq![c[0].1@]);
                let failed = crate::util::failed_names(c);
                let f1 = crate::util::failed_names(c.drop_last());
                if !c[0].0 && !c[1].0 {
                    assert(f1 =~= seq![c[0].1@]);
                    assert(failed.drop_last() =~= seq![c[0].1@]);
                } else if !c[0].0 {
                    assert(failed =~= seq![c[0].1@]);
                } else {
                    assert(f1 =~= Seq::<Seq<char>>::empty());
                    assert(failed =~= seq![c[1].1@]);
                }
                assert(conditions_message(c) =~= config_error_message(
                    self.proposal_required_quorum,
                    self.proposal_required_threshold,
                ));
            }
        }
        r
    }

    /// The decimal is at most one.
    pub fn less_or_equal_one(value: &Decimal) -> (b: bool)
        ensures
            b == (value.atomics <= DECIMAL_FRACTIONAL),
    {
        value.atomics <= Decimal::one().atomics
    }
}

/// Every parameter that instantiation needs is given.
pub open spec fn all_params_given(c: CreateOrUpdateConfig) -> bool {
    &&& c.proposal_voting_period is Some
    &&& c.proposal_effective_delay is Some
    &&& c.proposal_expiration_period is Some
    &&& c.proposal_required_deposit is Some
    &&& c.proposal_required_quorum is Some
    &&& c.proposal_required_threshold is Some
}

/// `cfg` is the configuration that instantiation by `owner` with parameters `c` creates:
/// the contract addresses start unset and every parameter is taken as given.
pub open spec fn is_initial_config(cfg: Config, owner: Seq<char>, c: CreateOrUpdateConfig) -> bool {
    &&& cfg.owner@ == owner
    &&& cfg.mars_token_address@ == Seq::<char>::empty()
    &&& cfg.xmars_token_address@ == Seq::<char>::empty()
    &&& cfg.staking_contract_address@ == Seq::<char>::empty()
    &&& cfg.insurance_fund_contract_address@ == Seq::<char>::empty()
    &&& cfg.proposal_voting_period == c.proposal_voting_period.unwrap()
    &&& cfg.proposal_effective_delay == c.proposal_effective_delay.unwrap()
    &&& cfg.proposal_expiration_period == c.proposal_expiration_period.unwrap()
    &&& cfg.proposal_required_deposit == c.proposal_required_deposit.unwrap()
    &&& cfg.proposal_required_quorum == c.proposal_required_quorum.unwrap()
    &&& cfg.proposal_required_threshold == c.proposal_required_threshold.unwrap()
}

/// The configuration after an update: each given value replaces the current one.
pub open spec fn updated_config(old: Config, mars: Option<String>, u: CreateOrUpdateConfig) -> Config {
    Config {
        owner: old.owner,
        mars_token_address: mars.unwrap_or(old.mars_token_address),
        xmars_token_address: u.xmars_token_address.unwrap_or(old.xmars_token_address),
        staking_contract_address: u.staking_contract_address.unwrap_or(old.staking_contract_address),
        insurance_fund_contract_address: u.insurance_fund_contract_address.unwrap_or(old.insurance_fund_contract_address),
        proposal_voting_period: u.proposal_voting_period.unwrap_or(old.proposal_voting_period),
        proposal_effective_delay: u.proposal_effective_delay.unwrap_or(old.proposal_effective_delay),
        proposal_expiration_period: u.proposal_expiration_period.unwrap_or(old.proposal_expiration_period),
        proposal_required_deposit: u.proposal_required_deposit.unwrap_or(old.proposal_required_deposit),
        proposal_required_quorum: u.proposal_required_quorum.unwrap_or(old.proposal_required_quorum),
        proposal_required_threshold: u.proposal_required_threshold.unwrap_or(old.proposal_required_threshold),
    }
}

/// Instantiates the governance contract for `sender`: every numeric parameter must be
/// given, and the quorum and threshold must be at most one. No proposal exists yet.
pub fn init(sender: String, msg_config: CreateOrUpdateConfig) -> (r: Result<
    (Config, GlobalState),
    ContractError,
>)
    ensures
        !all_params_given(msg_config) ==> is_generic_err(
            r,
            "All params should be available during initialization"@,
        ),
        all_params_given(msg_config) && !config_conditions_ok(
            msg_config.proposal_required_quorum.unwrap(),
            msg_config.proposal_required_threshold.unwrap(),
        ) ==> is_generic_err(
            r,
            config_error_message(
                msg_config.proposal_required_quorum.unwrap(),
                msg_config.proposal_required_threshold.unwrap(),
            ),
        ),
        all_params_given(msg_config) && config_conditions_ok(
            msg_config.proposal_required_quorum.unwrap(),
            msg_config.proposal_required_threshold.unwrap(),
        ) ==> (r matches Ok((cfg, g)) && is_initial_config(cfg, sender@, msg_config)
            && g.proposal_count == 0),
{
    let CreateOrUpdateConfig {
        xmars_token_address: _,
        staking_contract_address: _,
        insurance_fund_contract_address: _,
        proposal_voting_period,
        proposal_effective_delay,
        proposal_expiration_period,
        proposal_required_deposit,
        proposal_required_quorum,
        proposal_required_threshold,
    } = msg_config;
    let available = proposal_voting_period.is_some() && proposal_effective_delay.is_some()
        && proposal_expiration_period.is_some() && proposal_required_deposit.is_some()
        && proposal_required_quorum.is_some() && proposal_required_threshold.is_some();
    if !available {
        return Err(ContractError::generic_err("All params should be available during initialization"));
    }
    let config = Config {
        owner: sender,
        mars_token_address: String::new(),
        xmars_token_address: String::new(),
        staking_contract_address: String::new(),
        insurance_fund_contract_address: String::new(),
        proposal_voting_period: proposal_voting_period.unwrap(),
        proposal_effective_delay: proposal_effective_delay.unwrap(),
        proposal_expiration_period: proposal_expiration_period.unwrap(),
        proposal_required_deposit: proposal_required_deposit.unwrap(),
        proposal_required_quorum: proposal_required_quorum.unwrap(),
        proposal_required_threshold: proposal_required_threshold.unwrap(),
    };
    match config.validate() {
        Ok(()) => Ok((config, GlobalState { proposal_count: 0 })),
        Err(e) => Err(e),
    }
}

/// Updates the configuration. Only the contract itself may do so (through an executed
/// proposal); an update that leaves the quorum or threshold above one is refused and
/// changes nothing.
pub fn handle_update_config(
    config: &mut Config,
    sender: &String,
    contract_address: &String,
    mars_token_address: Option<String>,
    new_config: CreateOrUpdateConfig,
) -> (r: Result<(), ContractError>)
    ensures
        sender@ != contract_address@ ==> r == Err::<(), ContractError>(ContractError::Unauthorized),
        sender@ == contract_address@ && config_conditions_ok(
            updated_config(*old(config), mars_token_address, new_config).proposal_required_quorum,
            updated_config(*old(config), mars_token_address, new_config).proposal_required_threshold,
        ) ==> r == Ok::<(), ContractError>(()),
        sender@ == contract_address@ && !config_conditions_ok(
            updated_config(*old(config), mars_token_address, new_config).proposal_required_quorum,
            updated_config(*old(config), mars_token_address, new_config).proposal_required_threshold,
        ) ==> is_generic_err(
            r,
            config_error_message(
                updated_config(*old(config), mars_token_address, new_config).proposal_required_quorum,
                updated_config(
                    *old(config),
                    mars_token_address,
                    new_config,
                ).proposal_required_threshold,
            ),
        ),
        r is Ok ==> *final(config) == updated_config(*old(config), mars_token_address, new_config),
        r is Err ==> *final(config) == *old(config),
{
    if *sender != *contract_address {
        return Err(ContractError::Unauthorized);
    }
    let CreateOrUpdateConfig {
        xmars_token_address,
        staking_contract_address,
        insurance_fund_contract_address,
        proposal_voting_period,
        proposal_effective_delay,
        proposal_expiration_period,
        proposal_required_deposit,
        proposal_required_quorum,
        proposal_required_threshold,
    } = new_config;
    let candidate = Config {
        owner: config.owner.clone(),
        mars_token_address: mars_token_address.unwrap_or(config.mars_token_address.clone()),
        xmars_token_address: xmars_token_address.unwrap_or(config.xmars_token_address.clone()),
        staking_contract_address: staking_contract_address.unwrap_or(
            config.staking_contract_address.clone(),
        ),
        insurance_fund_contract_address: insurance_fund_contract_address.unwrap_or(
            config.insurance_fund_contract_address.clone(),
        ),
        proposal_voting_period: proposal_voting_period.unwrap_or(config.proposal_voting_period),
        proposal_effective_delay: proposal_effective_delay.unwrap_or(
            config.proposal_effective_delay,
        ),
        proposal_expiration_period: proposal_expiration_period.unwrap_or(
            config.proposal_expiration_period,
        ),
        proposal_required_deposit: proposal_required_deposit.unwrap_or(
            config.proposal_required_deposit,
        ),
        proposal_required_quorum: proposal_required_quorum.unwrap_or(
            config.proposal_required_quorum,
        ),
        proposal_required_threshold: proposal_required_threshold.unwrap_or(
            config.proposal_required_threshold,
        ),
    };
    match candidate.validate() {
        Ok(()) => {
            *config = candidate;
            Ok(())
        },
        Err(e) => Err(e),
    }
}

/// Records the Mars token's address when its instantiation calls back; this can happen once.
pub fn handle_init_mars_callback(config: &mut Config, sender: String) -> (r: Result<
    (),
    ContractError,
>)
    ensures
        old(config).mars_token_address@.len() == 0 ==> r == Ok::<(), ContractError>(())
            && final(config).mars_token_address == sender && final(config).owner == old(
            config,
        ).owner && final(config).xmars_token_address == old(config).xmars_token_address
            && final(config).staking_contract_address == old(config).staking_contract_address,
        old(config).mars_token_address@.len() != 0 ==> r == Err::<(), ContractError>(
            ContractError::Unauthorized,
        ) && *final(config) == *old(config),
{
    if config.mars_token_address.as_str().is_empty() {
        config.mars_token_address = sender;
        Ok(())
    } else {
        Err(ContractError::Unauthorized)
    }
}

/// Sets the xMars, staking and insurance fund addresses; allowed only while neither the
/// xMars nor the staking address is set.
pub fn handle_set_contract_addresses(
    config: &mut Config,
    xmars_token_address: String,
    staking_contract_address: String,
    insurance_fund_contract_address: String,
) -> (r: Result<(), ContractError>)
    ensures
        old(config).xmars_token_address@.len() != 0 || old(config).staking_contract_address@.len()
            != 0 ==> r == Err::<(), ContractError>(ContractError::Unauthorized) && *final(config)
            == *old(config),
        old(config).xmars_token_address@.len() == 0 && old(config).staking_contract_address@.len()
            == 0 ==> r == Ok::<(), ContractError>(()) && final(config).xmars_token_address
            == xmars_token_address && final(config).staking_contract_address
            == staking_contract_address && final(config).insurance_fund_contract_address
            == insurance_fund_contract_address && final(config).owner == old(config).owner
            && final(config).mars_token_address == old(config).mars_token_address,
{
    if !config.xmars_token_address.as_str().is_empty()
        || !config.staking_contract_address.as_str().is_empty() {
        return Err(ContractError::Unauthorized);
    }
    config.xmars_token_address = xmars_token_address;
    config.staking_contract_address = staking_contract_address;
    config.insurance_fund_contract_address = insurance_fund_contract_address;
    Ok(())
}

/// Only the owner may have Mars minted.
pub fn handle_mint_mars(config: &Config, sender: &String) -> (r: Result<(), ContractError>)
    ensures
        sender@ == config.owner@ ==> r == Ok::<(), ContractError>(()),
        sender@ != config.owner@ ==> r == Err::<(), ContractError>(ContractError::Unauthorized),
{
    if *sender == config.owner {
        Ok(())
    } else {
        Err(ContractError::Unauthorized)
    }
}

/// A call the contract makes when a passed proposal is executed.
#[derive(Debug)]
pub struct ProposalExecuteCall {
    /// Calls run in increasing order of this number; equal numbers keep submission order.
    pub execution_order: u64,
    pub target_contract_address: String,
    pub msg: Vec<u8>,
}

/// A proposal and its tally.
#[derive(Debug)]
pub struct Proposal {
    pub submitter_address: String,
    pub status: ProposalStatus,
    pub for_votes: u128,
    pub against_votes: u128,
    pub start_height: u64,
    pub end_height: u64,
    pub title: String,
    pub description: String,
    pub link: Option<String>,
    pub execute_calls: Option<Vec<ProposalExecuteCall>>,
    pub deposit_amount: u128,
}

/// A voter's recorded vote.
#[derive(Debug, Clone, Copy, PartialEq, Eq, Structural)]
pub struct ProposalVote {
    pub option: ProposalVoteOption,
    pub power: u128,
}

/// Why a proposal's title, description or link is refused, if it is.
pub open spec fn proposal_text_error(
    title: Seq<char>,
    description: Seq<char>,
    link: Option<String>,
) -> Option<Seq<char>> {
    if byte_len(title) < MIN_TITLE_LENGTH {
        Some("Title too short"@)
    } else if byte_len(title) > MAX_TITLE_LENGTH {
        Some("Title too long"@)
    } else if byte_len(description) < MIN_DESC_LENGTH {
        Some("Description too short"@)
    } else if byte_len(description) > MAX_DESC_LENGTH {
        Some("Description too long"@)
    } else {
        match link {
            Some(l) => if byte_len(l@) < MIN_LINK_LENGTH {
                Some("Link too short"@)
            } else if byte_len(l@) > MAX_LINK_LENGTH {
                Some("Link too long"@)
            } else {
                None
            },
            None => None,
        }
    }
}

/// A submission passes every check: valid texts, sent by the Mars token, enough deposit.
pub open spec fn submission_accepted(
    config: Config,
    sender: Seq<char>,
    deposit_amount: u128,
    title: Seq<char>,
    description: Seq<char>,
    link: Option<String>,
) -> bool {
    &&& proposal_text_error(title, description, link) is None
    &&& sender == config.mars_token_address@
    &&& deposit_amount >= config.proposal_required_deposit
}

/// `p` is the proposal that a submission at `height` creates.
pub open spec fn is_new_proposal(
    p: Proposal,
    submitter: String,
    deposit_amount: u128,
    title: String,
    description: String,
    link: Option<String>,
    execute_calls: Option<Vec<ProposalExecuteCall>>,
    height: u64,
    voting_period: u64,
) -> bool {
    &&& p.submitter_address == submitter
    &&& p.status == ProposalStatus::Active
    &&& p.for_votes == 0 && p.against_votes == 0
    &&& p.start_height == height
    &&& p.end_height == height + voting_period
    &&& p.title == title && p.description == description && p.link == link
    &&& p.execute_calls == execute_calls
    &&& p.deposit_amount == deposit_amount
}

/// Checks a text's length in bytes against its bounds.
fn check_length(s: &str, min: usize, max: usize, too_short: &str, too_long: &str) -> (r: Result<
    (),
    ContractError,
>)
    ensures
        byte_len(s@) < min ==> is_invalid_proposal_err(r, too_short@),
        min <= byte_len(s@) && byte_len(s@) > max ==> is_invalid_proposal_err(r, too_long@),
        min <= byte_len(s@) <= max ==> r == Ok::<(), ContractError>(()),
{
    let len = s.as_bytes().len();
    if len < min {
        Err(ContractError::invalid_proposal(too_short))
    } else if len > max {
        Err(ContractError::invalid_proposal(too_long))
    } else {
        Ok(())
    }
}

/// Submits a proposal sent with `deposit_amount` Mars through the Mars token (`sender`).
/// The title, description and optional link must have lengths within their bounds; the
/// new proposal gets the next id and is open for votes from `block_height` for the voting
/// period.
pub fn handle_submit_proposal(
    config: &Config,
    global_state: &mut GlobalState,
    sender: &String,
    submitter_address: String,
    deposit_amount: u128,
    title: String,
    description: String,
    link: Option<String>,
    execute_calls: Option<Vec<ProposalExecuteCall>>,
    block_height: u64,
) -> (r: Result<(u64, Proposal), ContractError>)
    requires
        submission_accepted(*config, sender@, deposit_amount, title@, description@, link)
            ==> old(global_state).proposal_count < u64::MAX && block_height
            + config.proposal_voting_period <= u64::MAX,
    ensures
        proposal_text_error(title@, description@, link) matches Some(m) ==> is_invalid_proposal_err(
            r,
            m,
        ),
        proposal_text_error(title@, description@, link) is None && sender@
            != config.mars_token_address@ ==> r == Err::<(u64, Proposal), ContractError>(
            ContractError::Unauthorized,
        ),
        proposal_text_error(title@, description@, link) is None && sender@
            == config.mars_token_address@ && deposit_amount < config.proposal_required_deposit
            ==> r == Err::<(u64, Proposal), ContractError>(
            (ContractError::InsufficientProposalDeposit {
                required: config.proposal_required_deposit,
            }),
        ),
        submission_accepted(*config, sender@, deposit_amount, title@, description@, link) ==> (r
            matches Ok((id, p)) && id == old(global_state).proposal_count + 1
            && final(global_state).proposal_count == id && is_new_proposal(
            p,
            submitter_address,
            deposit_amount,
            title,
            description,
            link,
            execute_calls,
            block_height,
            config.proposal_voting_period,
        )),
        r is Err ==> *final(global_state) == *old(global_state),
{
    match check_length(title.as_str(), MIN_TITLE_LENGTH, MAX_TITLE_LENGTH, "Title too short", "Title too long") {
        Ok(()) => {},
        Err(e) => {
            return Err(e);
        },
    }
    match check_length(
        description.as_str(),
        MIN_DESC_LENGTH,
        MAX_DESC_LENGTH,
        "Description too short",
        "Description too long",
    ) {
        Ok(()) => {},
        Err(e) => {
            return Err(e);
        },
    }
    match &link {
        Some(l) => match check_length(l.as_str(), MIN_LINK_LENGTH, MAX_LINK_LENGTH, "Link too short", "Link too long") {
            Ok(()) => {},
            Err(e) => {
                return Err(e);
            },
        },
        None => {},
    }
    if *sender != config.mars_token_address {
        return Err(ContractError::Unauthorized);
    }
    if deposit_amount < config.proposal_required_deposit {
        return Err(
            ContractError::InsufficientProposalDeposit { required: config.proposal_required_deposit },
        );
    }
    global_state.proposal_count = global_state.proposal_count + 1;
    let proposal = Proposal {
        submitter_address,
        status: ProposalStatus::Active,
        for_votes: 0,
        against_votes: 0,
        start_height: block_height,
        end_height: block_height + config.proposal_voting_period,
        title,
        description,
        link,
        execute_calls,
        deposit_amount,
    };
    Ok((global_state.proposal_count, proposal))
}

/// The proposal with its tally replaced.
pub open spec fn with_votes(p: Proposal, for_votes: u128, against_votes: u128) -> Proposal {
    Proposal { for_votes, against_votes, ..p }
}

/// The proposal with its status replaced.
pub open spec fn with_status(p: Proposal, status: ProposalStatus) -> Proposal {
    Proposal { status, ..p }
}

/// A vote on `p` at `height` reaches the point where the voter's power is read: the
/// proposal is active and open, the voter has not voted, and xMars is configured.
pub open spec fn vote_reaches_power(config: Config, p: Proposal, height: u64, already_voted: bool) -> bool {
    &&& p.status == ProposalStatus::Active
    &&& height <= p.end_height
    &&& !already_voted
    &&& config.xmars_token_address@.len() != 0
}

/// Casts a vote of `voting_power`, the voter's xMars balance at the block before the
/// proposal started, on an active proposal whose voting period has not ended.
pub fn handle_cast_vote(
    config: &Config,
    proposal: &mut Proposal,
    block_height: u64,
    already_voted: bool,
    voting_power: u128,
    vote_option: ProposalVoteOption,
) -> (r: Result<ProposalVote, ContractError>)
    requires
        vote_reaches_power(*config, *old(proposal), block_height, already_voted) ==> old(
            proposal,
        ).start_height >= 1,
        vote_reaches_power(*config, *old(proposal), block_height, already_voted) && voting_power
            > 0 ==> (vote_option == ProposalVoteOption::For ==> old(proposal).for_votes
            + voting_power <= u128::MAX) && (vote_option == ProposalVoteOption::Against ==> old(
            proposal,
        ).against_votes + voting_power <= u128::MAX),
    ensures
        old(proposal).status != ProposalStatus::Active ==> r == Err::<ProposalVote, ContractError>(
            ContractError::ProposalNotActive,
        ),
        old(proposal).status == ProposalStatus::Active && block_height > old(proposal).end_height
            ==> r == Err::<ProposalVote, ContractError>(ContractError::VoteProposalExpired),
        old(proposal).status == ProposalStatus::Active && block_height <= old(proposal).end_height
            && already_voted ==> r == Err::<ProposalVote, ContractError>(
            ContractError::VoteUserAlreadyVoted,
        ),
        old(proposal).status == ProposalStatus::Active && block_height <= old(proposal).end_height
            && !already_voted && config.xmars_token_address@.len() == 0 ==> is_generic_err(
            r,
            "Basecamp config not setup correctly, requires xmars_token_address"@,
        ),
        vote_reaches_power(*config, *old(proposal), block_height, already_voted) && voting_power
            == 0 ==> r == Err::<ProposalVote, ContractError>(
            (ContractError::VoteNoVotingPower { block: (old(proposal).start_height - 1) as u64 }),
        ),
        vote_reaches_power(*config, *old(proposal), block_height, already_voted) && voting_power > 0
            ==> r == Ok::<ProposalVote, ContractError>(
            (ProposalVote { option: vote_option, power: voting_power }),
        ) && *final(proposal) == (if vote_option == ProposalVoteOption::For {
            with_votes(
                *old(proposal),
                (old(proposal).for_votes + voting_power) as u128,
                old(proposal).against_votes,
            )
        } else {
            with_votes(
                *old(proposal),
                old(proposal).for_votes,
                (old(proposal).against_votes + voting_power) as u128,
            )
        }),
        r is Err ==> *final(proposal) == *old(proposal),
{
    if proposal.status != ProposalStatus::Active {
        return Err(ContractError::ProposalNotActive);
    }
    if block_height > proposal.end_height {
        return Err(ContractError::VoteProposalExpired);
    }
    if already_voted {
        return Err(ContractError::VoteUserAlreadyVoted);
    }
    if config.xmars_token_address.as_str().is_empty() {
        return Err(
            ContractError::generic_err(
                "Basecamp config not setup correctly, requires xmars_token_address",
            ),
        );
    }
    let balance_at_block = proposal.start_height - 1;
    if voting_power == 0 {
        return Err(ContractError::VoteNoVotingPower { block: balance_at_block });
    }
    match vote_option {
        ProposalVoteOption::For => {
            proposal.for_votes = proposal.for_votes + voting_power;
        },
        ProposalVoteOption::Against => {
            proposal.against_votes = proposal.against_votes + voting_power;
        },
    }
    Ok(ProposalVote { option: vote_option, power: voting_power })
}

/// Share of the total voting power that voted, as decimal atomics (zero without voting power).
pub open spec fn proposal_quorum(for_votes: u128, against_votes: u128, total_voting_power: u128) -> int {
    if total_voting_power > 0 {
        mul_div(for_votes + against_votes, DECIMAL_FRACTIONAL as int, total_voting_power as int)
    } else {
        0
    }
}

/// Share of the votes that are in favour, as decimal atomics (zero without votes).
pub open spec fn proposal_threshold(for_votes: u128, against_votes: u128) -> int {
    if for_votes + against_votes > 0 {
        mul_div(for_votes as int, DECIMAL_FRACTIONAL as int, for_votes + against_votes)
    } else {
        0
    }
}

/// A proposal with this tally passes: both quorum and threshold reach the configured values.
pub open spec fn proposal_passes(
    config: Config,
    for_votes: u128,
    against_votes: u128,
    total_voting_power: u128,
) -> bool {
    &&& proposal_quorum(for_votes, against_votes, total_voting_power)
        >= config.proposal_required_quorum.atomics
    &&& proposal_threshold(for_votes, against_votes) >= config.proposal_required_threshold.atomics
}

/// Law: when a positive quorum is required, a proposal that received no votes is rejected.
pub proof fn lemma_no_votes_no_pass(config: Config, total_voting_power: u128)
    requires
        config.proposal_required_quorum.atomics > 0,
    ensures
        !proposal_passes(config, 0, 0, total_voting_power),
{
    if total_voting_power > 0 {
        assert(0 * DECIMAL_FRACTIONAL == 0);
        assert(mul_div(0, DECIMAL_FRACTIONAL as int, total_voting_power as int) == 0);
    }
}

/// `x / d >= q` exactly when `x >= q * d`, for a non-negative `x` and `q` and a positive `d`.
proof fn lemma_floor_at_least(x: int, d: int, q: int)
    requires
        x >= 0,
        d > 0,
        q >= 0,
    ensures
        (x / d >= q) == (x >= q * d),
{
    vstd::arithmetic::div_mod::lemma_fundamental_div_mod(x, d);
    vstd::arithmetic::div_mod::lemma_mod_bound(x, d);
    let k = x / d;
    let r = x % d;
    assert(k >= q ==> x >= q * d) by (nonlinear_arith)
        requires
            x == d * k + r,
            r >= 0,
            d > 0,
    ;
    assert(k < q ==> x < q * d) by (nonlinear_arith)
        requires
            x == d * k + r,
            r < d,
            d > 0,
    ;
}

/// Law: a tally passes exactly when the votes cast, in favour and against alike, reach the
/// required quorum of the total voting power (`(for + against) / total >= quorum`), and the
/// votes in favour reach the required threshold of the votes cast (`for / (for + against)
/// >= threshold`). With no voting power, or no votes, the share counts as zero.
pub proof fn lemma_tally_passes(config: Config, for_votes: u128, against_votes: u128, total: u128)
    ensures
        proposal_passes(config, for_votes, against_votes, total) == ({
            let f = DECIMAL_FRACTIONAL as int;
            let cast = for_votes + against_votes;
            let q = config.proposal_required_quorum.atomics;
            let th = config.proposal_required_threshold.atomics;
            &&& if total > 0 {
                cast * f >= q * total
            } else {
                q == 0
            }
            &&& if cast > 0 {
                for_votes * f >= th * cast
            } else {
                th == 0
            }
        }),
{
    let f = DECIMAL_FRACTIONAL as int;
    let cast = for_votes + against_votes;
    if total > 0 {
        assert(cast * f >= 0) by (nonlinear_arith)
            requires
                cast >= 0,
                f > 0,
        ;
        lemma_floor_at_least(cast * f, total as int, config.proposal_required_quorum.atomics as int);
    }
    if cast > 0 {
        assert(for_votes * f >= 0) by (nonlinear_arith)
            requires
                f > 0,
        ;
        lemma_floor_at_least(
            for_votes * f,
            cast,
            config.proposal_required_threshold.atomics as int,
        );
    }
}

/// What ending a proposal decided: its new status, and who receives the deposit back.
#[derive(Debug)]
pub struct EndProposalResult {
    pub status: ProposalStatus,
    /// The submitter when the proposal passed, the staking contract otherwise.
    pub deposit_recipient: String,
    pub deposit_amount: u128,
}

/// Ending `p` at `height` reaches the tally: the contracts are configured, the proposal is
/// active and its voting period is over.
pub open spec fn end_reaches_tally(config: Config, p: Proposal, height: u64) -> bool {
    &&& config.xmars_token_address@.len() != 0
    &&& config.staking_contract_address@.len() != 0
    &&& p.status == ProposalStatus::Active
    &&& height > p.end_height
}

/// Law: a proposal that has been ended (passed or rejected) takes no further vote and cannot
/// be ended again, at any height; an executed proposal cannot be executed again.
pub proof fn lemma_proposal_lifecycle(
    config: Config,
    p: Proposal,
    total_voting_power: u128,
    later_height: u64,
    already_voted: bool,
)
    ensures
        ({
            let ended = with_status(
                p,
                if proposal_passes(config, p.for_votes, p.against_votes, total_voting_power) {
                    ProposalStatus::Passed
                } else {
                    ProposalStatus::Rejected
                },
            );
            &&& !vote_reaches_power(config, ended, later_height, already_voted)
            &&& !end_reaches_tally(config, ended, later_height)
        }),
        with_status(p, ProposalStatus::Executed).status != ProposalStatus::Passed,
{
}

/// Ends an active proposal after its voting period, given the total xMars supply at the
/// block before it started. It passes when quorum and threshold reach the configured
/// values; the deposit goes back to the submitter if it passed and to the staking contract
/// otherwise.
pub fn handle_end_proposal(
    config: &Config,
    proposal: &mut Proposal,
    block_height: u64,
    total_voting_power: u128,
) -> (r: Result<EndProposalResult, ContractError>)
    requires
        end_reaches_tally(*config, *old(proposal), block_height) ==> old(proposal).for_votes + old(
            proposal,
        ).against_votes <= u128::MAX && old(proposal).start_height >= 1 && proposal_quorum(
            old(proposal).for_votes,
            old(proposal).against_votes,
            total_voting_power,
        ) <= u128::MAX,
    ensures
        config.xmars_token_address@.len() == 0 ==> is_generic_err(
            r,
            "Basecamp config not setup correctly, requires xmars_token_address"@,
        ),
        config.xmars_token_address@.len() != 0 && config.staking_contract_address@.len() == 0
            ==> is_generic_err(
            r,
            "Basecamp config not setup correctly, requires staking_contract_address"@,
        ),
        config.xmars_token_address@.len() != 0 && config.staking_contract_address@.len() != 0
            && old(proposal).status != ProposalStatus::Active ==> r == Err::<
            EndProposalResult,
            ContractError,
        >(ContractError::ProposalNotActive),
        config.xmars_token_address@.len() != 0 && config.staking_contract_address@.len() != 0
            && old(proposal).status == ProposalStatus::Active && block_height <= old(
            proposal,
        ).end_height ==> r == Err::<EndProposalResult, ContractError>(
            ContractError::EndVotingPeriodNotEnded,
        ),
        end_reaches_tally(*config, *old(proposal), block_height) ==> (r matches Ok(res) && {
            let passed = proposal_passes(
                *config,
                old(proposal).for_votes,
                old(proposal).against_votes,
                total_voting_power,
            );
            &&& res.status == (if passed {
                ProposalStatus::Passed
            } else {
                ProposalStatus::Rejected
            })
            &&& res.deposit_recipient == (if passed {
                old(proposal).submitter_address
            } else {
                config.staking_contract_address
            })
            &&& res.deposit_amount == old(proposal).deposit_amount
            &&& *final(proposal) == with_status(*old(proposal), res.status)
        }),
        r is Err ==> *final(proposal) == *old(proposal),
{
    if config.xmars_token_address.as_str().is_empty() {
        return Err(
            ContractError::generic_err(
                "Basecamp config not setup correctly, requires xmars_token_address",
            ),
        );
    }
    if config.staking_contract_address.as_str().is_empty() {
        return Err(
            ContractError::generic_err(
                "Basecamp config not setup correctly, requires staking_contract_address",
            ),
        );
    }
    if proposal.status != ProposalStatus::Active {
        return Err(ContractError::ProposalNotActive);
    }
    if block_height <= proposal.end_height {
        return Err(ContractError::EndVotingPeriodNotEnded);
    }
    let for_votes = proposal.for_votes;
    let against_votes = proposal.against_votes;
    let total_votes = for_votes + against_votes;
    let mut quorum = Decimal::zero();
    let mut threshold = Decimal::zero();
    if total_voting_power > 0 {
        quorum = Decimal::from_ratio(total_votes, total_voting_power);
    }
    if total_votes > 0 {
        proof {
            crate::math::lemma_mul_div_le_left(
                DECIMAL_FRACTIONAL as int,
                for_votes as int,
                total_votes as int,
            );
            assert(for_votes * DECIMAL_FRACTIONAL == DECIMAL_FRACTIONAL * for_votes) by (nonlinear_arith);
        }
        threshold = Decimal::from_ratio(for_votes, total_votes);
    }
    let passed = quorum.atomics >= config.proposal_required_quorum.atomics
        && threshold.atomics >= config.proposal_required_threshold.atomics;
    let (status, deposit_recipient) = if passed {
        (ProposalStatus::Passed, proposal.submitter_address.clone())
    } else {
        (ProposalStatus::Rejected, config.staking_contract_address.clone())
    };
    proposal.status = status;
    Ok(EndProposalResult { status, deposit_recipient, deposit_amount: proposal.deposit_amount })
}

/// Call `i` runs before call `j`: a lower execution order, or the same order and
/// submitted earlier.
pub open spec fn runs_before(calls: Seq<ProposalExecuteCall>, i: int, j: int) -> bool {
    ||| calls[i].execution_order < calls[j].execution_order
    ||| calls[i].execution_order == calls[j].execution_order && i < j
}

/// `order` lists each index of `calls` once, in the order the calls run.
pub open spec fn is_execution_order(calls: Seq<ProposalExecuteCall>, order: Seq<usize>) -> bool {
    &&& order.len() == calls.len()
    &&& forall|k: int| 0 <= k < order.len() ==> #[trigger] order[k] < calls.len()
    &&& forall|i: int| 0 <= i < calls.len() ==> #[trigger] order.contains(i as usize)
    &&& forall|k1: int, k2: int|
        0 <= k1 < k2 < order.len() ==> runs_before(calls, #[trigger] order[k1] as int, #[trigger] order[k2] as int)
}

/// Indices of `calls` sorted by execution order; calls with the same order keep their
/// submission order (a stable sort).
pub fn execution_order(calls: &Vec<ProposalExecuteCall>) -> (order: Vec<usize>)
    ensures
        is_execution_order(calls@, order@),
{
    let ghost c = calls@;
    let mut order: Vec<usize> = Vec::new();
    let mut i: usize = 0;
    while i < calls.len()
        invariant
            c == calls@,
            i <= c.len(),
            order@.len() == i,
            forall|k: int| 0 <= k < order@.len() ==> #[trigger] order@[k] < i,
            forall|j: int| 0 <= j < i ==> #[trigger] order@.contains(j as usize),
            forall|k1: int, k2: int|
                0 <= k1 < k2 < order@.len() ==> runs_before(c, #[trigger] order@[k1] as int, #[trigger] order@[k2] as int),
        decreases c.len() - i,
    {
        let key = calls[i].execution_order;
        let mut k: usize = order.len();
        while k > 0 && calls[order[k - 1]].execution_order > key
            invariant
                c == calls@,
                i < c.len(),
                key == c[i as int].execution_order,
                k <= order@.len(),
                forall|m: int| 0 <= m < order@.len() ==> #[trigger] order@[m] < i,
                forall|m: int| k <= m < order@.len() ==> c[#[trigger] order@[m] as int].execution_order > key,
            decreases k,
        {
            k = k - 1;
        }
        let ghost old_order = order@;
        proof {
            assert forall|m: int| 0 <= m < k implies c[#[trigger] old_order[m] as int].execution_order
                <= key by {
                if m < k - 1 {
                    assert(runs_before(c, old_order[m] as int, old_order[k - 1] as int));
                }
            }
        }
        order.insert(k, i);
        proof {
            let o = order@;
            assert(o =~= old_order.insert(k as int, i));
            assert forall|m: int| 0 <= m < o.len() implies #[trigger] o[m] < i + 1 by {
                if m > k {
                    assert(o[m] == old_order[m - 1]);
                }
            }
            assert forall|j: int| 0 <= j < i + 1 implies #[trigger] o.contains(j as usize) by {
                if j == i {
                    assert(o[k as int] == i);
                } else {
                    assert(old_order.contains(j as usize));
                    let w = choose|w: int| 0 <= w < old_order.len() && old_order[w] == j as usize;
                    if w < k {
                        assert(o[w] == j as usize);
                    } else {
                        assert(o[w + 1] == j as usize);
                    }
                }
            }
            assert forall|k1: int, k2: int| 0 <= k1 < k2 < o.len() implies runs_before(
                c,
                #[trigger] o[k1] as int,
                #[trigger] o[k2] as int,
            ) by {
                if k1 < k && k2 < k {
                    assert(o[k1] == old_order[k1] && o[k2] == old_order[k2]);
                } else if k1 < k && k2 == k {
                    assert(o[k1] == old_order[k1]);
                    assert(old_order[k1] < i);
                } else if k1 < k {
                    assert(o[k1] == old_order[k1] && o[k2] == old_order[k2 - 1]);
                } else if k1 == k {
                    assert(o[k2] == old_order[k2 - 1]);
                } else {
                    assert(o[k1] == old_order[k1 - 1] && o[k2] == old_order[k2 - 1]);
                }
            }
        }
        i = i + 1;
    }
    order
}

/// Executes a passed proposal within its execution window: from the end of voting plus
/// the effective delay, until the expiration period after that. The proposal becomes
/// executed, and the result lists its calls' indices in the order they run.
pub fn handle_execute_proposal(config: &Config, proposal: &mut Proposal, block_height: u64) -> (r:
    Result<Vec<usize>, ContractError>)
    requires
        old(proposal).status == ProposalStatus::Passed ==> old(proposal).end_height
            + config.proposal_effective_delay <= u64::MAX && (block_height >= old(proposal).end_height
            + config.proposal_effective_delay ==> old(proposal).end_height
            + config.proposal_effective_delay + config.proposal_expiration_period <= u64::MAX),
    ensures
        old(proposal).status != ProposalStatus::Passed ==> is_generic_err(
            r,
            "Proposal has not passed or has already been executed"@,
        ),
        old(proposal).status == ProposalStatus::Passed && block_height < old(proposal).end_height
            + config.proposal_effective_delay ==> r == Err::<Vec<usize>, ContractError>(
            ContractError::ExecuteProposalDelayNotEnded,
        ),
        old(proposal).status == ProposalStatus::Passed && block_height >= old(proposal).end_height
            + config.proposal_effective_delay && block_height > old(proposal).end_height
            + config.proposal_effective_delay + config.proposal_expiration_period ==> is_generic_err(
            r,
            "Proposal has expired"@,
        ),
        old(proposal).status == ProposalStatus::Passed && old(proposal).end_height
            + config.proposal_effective_delay <= block_height <= old(proposal).end_height
            + config.proposal_effective_delay + config.proposal_expiration_period ==> (r matches Ok(
            order,
        ) && *final(proposal) == with_status(*old(proposal), ProposalStatus::Executed) && (match old(
            proposal,
        ).execute_calls {
            Some(calls) => is_execution_order(calls@, order@),
            None => order@.len() == 0,
        })),
        r is Err ==> *final(proposal) == *old(proposal),
{
    if proposal.status != ProposalStatus::Passed {
        return Err(ContractError::generic_err("Proposal has not passed or has already been executed"));
    }
    if block_height < proposal.end_height + config.proposal_effective_delay {
        return Err(ContractError::ExecuteProposalDelayNotEnded);
    }
    if block_height > proposal.end_height + config.proposal_effective_delay
        + config.proposal_expiration_period {
        return Err(ContractError::generic_err("Proposal has expired"));
    }
    proposal.status = ProposalStatus::Executed;
    match &proposal.execute_calls {
        Some(calls) => Ok(execution_order(calls)),
        None => Ok(Vec::new()),
    }
}

/// Index of the last executed proposal in `proposals` (listed in ascending id order).
pub fn query_latest_executed_proposal(proposals: &Vec<Proposal>) -> (r: Result<usize, ContractError>)
    ensures
        r matches Ok(i) ==> i < proposals@.len() && proposals@[i as int].status == ProposalStatus::Executed
            && forall|j: int| i < j < proposals@.len() ==> #[trigger] proposals@[j].status
            != ProposalStatus::Executed,
        r is Err ==> is_generic_err(r, "No executed proposals found"@) && forall|j: int|
            0 <= j < proposals@.len() ==> #[trigger] proposals@[j].status != ProposalStatus::Executed,
{
    let mut i: usize = proposals.len();
    while i > 0
        invariant
            i <= proposals@.len(),
            forall|j: int| i <= j < proposals@.len() ==> #[trigger] proposals@[j].status
                != ProposalStatus::Executed,
        decreases i,
    {
        if proposals[i - 1].status == ProposalStatus::Executed {
            return Ok(i - 1);
        }
        i = i - 1;
    }
    Err(ContractError::generic_err("No executed proposals found"))
}

/// Id of the first proposal listed when none is given.
pub const DEFAULT_START: u64 = 1;
/// Most proposals listed at once.
pub const MAX_LIMIT: u32 = 30;
/// Proposals listed when no limit is given.
pub const DEFAULT_LIMIT: u32 = 10;

/// First id and number of proposals of a listing page.
pub fn proposals_page(start: Option<u64>, limit: Option<u32>) -> (r: (u64, usize))
    ensures
        r.0 == start.unwrap_or(DEFAULT_START),
        r.1 == (if limit.unwrap_or(DEFAULT_LIMIT) < MAX_LIMIT {
            limit.unwrap_or(DEFAULT_LIMIT)
        } else {
            MAX_LIMIT
        }),
{
    let start = start.unwrap_or(DEFAULT_START);
    let limit = limit.unwrap_or(DEFAULT_LIMIT);
    let limit = if limit < MAX_LIMIT {
        limit
    } else {
        MAX_LIMIT
    };
    (start, limit as usize)
}

} // verus!
