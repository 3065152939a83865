use mars_protocol::error::ContractError;
use mars_protocol::governance::{
    execution_order, handle_cast_vote, handle_end_proposal, handle_execute_proposal,
    handle_mint_mars, handle_set_contract_addresses, handle_submit_proposal, handle_update_config,
    init, proposals_page, query_latest_executed_proposal, Config, CreateOrUpdateConfig,
    GlobalState, Proposal, ProposalExecuteCall, ProposalStatus, ProposalVote, ProposalVoteOption,
};
use mars_protocol::math::Decimal;

const TEST_PROPOSAL_VOTING_PERIOD: u64 = 2000;
const TEST_PROPOSAL_EFFECTIVE_DELAY: u64 = 200;
const TEST_PROPOSAL_EXPIRATION_PERIOD: u64 = 300;
const TEST_PROPOSAL_REQUIRED_DEPOSIT: u128 = 10000;
const ONE: u128 = 1_000_000_000_000_000_000;

fn s(x: &str) -> String {
    x.to_string()
}

fn dec(n: u128, d: u128) -> Decimal {
    Decimal { atomics: n * ONE / d }
}

fn full_params(quorum: Decimal, threshold: Decimal) -> CreateOrUpdateConfig {
    CreateOrUpdateConfig {
        xmars_token_address: None,
        staking_contract_address: None,
        insurance_fund_contract_address: None,
        proposal_voting_period: Some(TEST_PROPOSAL_VOTING_PERIOD),
        proposal_effective_delay: Some(TEST_PROPOSAL_EFFECTIVE_DELAY),
        proposal_expiration_period: Some(TEST_PROPOSAL_EXPIRATION_PERIOD),
        proposal_required_deposit: Some(TEST_PROPOSAL_REQUIRED_DEPOSIT),
        proposal_required_quorum: Some(quorum),
        proposal_required_threshold: Some(threshold),
    }
}

fn th_setup() -> (Config, GlobalState) {
    let (mut config, global) = init(s("owner"), full_params(dec(1, 1), dec(1, 1))).unwrap();
    config.mars_token_address = s("mars_token");
    config.xmars_token_address = s("xmars_token");
    config.staking_contract_address = s("staking_contract");
    config.insurance_fund_contract_address = s("insurance_contract");
    (config, global)
}

fn mock_proposal(
    status: ProposalStatus,
    for_votes: u128,
    against_votes: u128,
    start_height: u64,
    end_height: u64,
    execute_calls: Option<Vec<ProposalExecuteCall>>,
) -> Proposal {
    Proposal {
        submitter_address: s("submitter"),
        status,
        for_votes,
        against_votes,
        start_height,
        end_height,
        title: s("A valid title"),
        description: s("A description"),
        link: None,
        execute_calls,
        deposit_amount: TEST_PROPOSAL_REQUIRED_DEPOSIT,
    }
}

fn empty_update() -> CreateOrUpdateConfig {
    CreateOrUpdateConfig {
        xmars_token_address: None,
        staking_contract_address: None,
        insurance_fund_contract_address: None,
        proposal_voting_period: None,
        proposal_effective_delay: None,
        proposal_expiration_period: None,
        proposal_required_deposit: None,
        proposal_required_quorum: None,
        proposal_required_threshold: None,
    }
}

#[test]
fn test_proper_initialization() {
    // empty params
    let err = init(s("owner"), empty_update()).unwrap_err();
    assert_eq!(
        err,
        ContractError::Generic { msg: s("All params should be available during initialization") }
    );

    // quorum and threshold greater than one
    let mut params = full_params(dec(11, 10), dec(11, 10));
    params.proposal_voting_period = Some(1);
    let err = init(s("owner"), params).unwrap_err();
    assert_eq!(
        err,
        ContractError::Generic {
            msg: s("[proposal_required_quorum, proposal_required_threshold] should be less or equal 1. Invalid params: [proposal_required_quorum, proposal_required_threshold]")
        }
    );

    let (config, global) = init(s("owner"), full_params(dec(1, 1), dec(1, 1))).unwrap();
    assert_eq!(config.owner, "owner");
    assert_eq!(config.mars_token_address, "");
    assert_eq!(config.proposal_voting_period, TEST_PROPOSAL_VOTING_PERIOD);
    assert_eq!(global, GlobalState { proposal_count: 0 });
}

#[test]
fn test_set_contract_addresses() {
    let (mut config, _) = init(s("owner"), full_params(dec(1, 1), dec(1, 1))).unwrap();
    assert_eq!(config.xmars_token_address, "");
    assert_eq!(config.staking_contract_address, "");

    handle_set_contract_addresses(
        &mut config,
        s("xmars_token"),
        s("staking_contract"),
        s("insurance_contract"),
    )
    .unwrap();
    assert_eq!(config.xmars_token_address, "xmars_token");
    assert_eq!(config.staking_contract_address, "staking_contract");
    assert_eq!(config.insurance_fund_contract_address, "insurance_contract");

    let err = handle_set_contract_addresses(
        &mut config,
        s("different_xmars_token"),
        s("different_staking_contract"),
        s("different_insurance_contract"),
    )
    .unwrap_err();
    assert_eq!(err, ContractError::Unauthorized);
    assert_eq!(config.xmars_token_address, "xmars_token");
    assert_eq!(config.staking_contract_address, "staking_contract");
    assert_eq!(config.insurance_fund_contract_address, "insurance_contract");
}

#[test]
fn test_update_config() {
    let contract = s("cosmos2contract");
    let mut params = full_params(dec(1, 1), dec(1, 1));
    params.proposal_voting_period = Some(10);
    params.proposal_effective_delay = Some(11);
    params.proposal_expiration_period = Some(12);
    params.proposal_required_deposit = Some(111);
    let (mut config, _) = init(contract.clone(), params).unwrap();

    // quorum and threshold greater than one
    let mut update = empty_update();
    update.proposal_required_quorum = Some(dec(11, 10));
    update.proposal_required_threshold = Some(dec(11, 10));
    let err =
        handle_update_config(&mut config, &contract, &contract, Some(s("mars_addr")), update)
            .unwrap_err();
    assert_eq!(
        err,
        ContractError::Generic {
            msg: s("[proposal_required_quorum, proposal_required_threshold] should be less or equal 1. Invalid params: [proposal_required_quorum, proposal_required_threshold]")
        }
    );
    assert_eq!(config.mars_token_address, "");

    // somebody else is not authorized
    let err = handle_update_config(&mut config, &s("somebody"), &contract, None, empty_update())
        .unwrap_err();
    assert_eq!(err, ContractError::Unauthorized);

    // all new params
    let update = CreateOrUpdateConfig {
        xmars_token_address: Some(s("new_xmars_addr")),
        staking_contract_address: Some(s("new_staking_addr")),
        insurance_fund_contract_address: Some(s("new_insurance_addr")),
        proposal_voting_period: Some(101),
        proposal_effective_delay: Some(111),
        proposal_expiration_period: Some(121),
        proposal_required_deposit: Some(1111),
        proposal_required_threshold: Some(dec(4, 5)),
        proposal_required_quorum: Some(dec(1, 5)),
    };
    handle_update_config(&mut config, &contract, &contract, Some(s("new_mars_addr")), update)
        .unwrap();
    assert_eq!(config.xmars_token_address, "new_xmars_addr");
    assert_eq!(config.mars_token_address, "new_mars_addr");
    assert_eq!(config.staking_contract_address, "new_staking_addr");
    assert_eq!(config.proposal_voting_period, 101);
    assert_eq!(config.proposal_effective_delay, 111);
    assert_eq!(config.proposal_expiration_period, 121);
    assert_eq!(config.proposal_required_deposit, 1111);
    assert_eq!(config.proposal_required_threshold, dec(4, 5));
    assert_eq!(config.proposal_required_quorum, dec(1, 5));
}

#[test]
fn test_mint_mars() {
    let (config, _) = th_setup();
    assert_eq!(handle_mint_mars(&config, &s("owner")), Ok(()));
    assert_eq!(handle_mint_mars(&config, &s("someoneelse")), Err(ContractError::Unauthorized));
}

fn submit(
    config: &Config,
    global: &mut GlobalState,
    sender: &str,
    deposit: u128,
    title: String,
    description: String,
    link: Option<String>,
) -> Result<(u64, Proposal), ContractError> {
    handle_submit_proposal(
        config,
        global,
        &s(sender),
        s("submitter"),
        deposit,
        title,
        description,
        link,
        None,
        100_000,
    )
}

#[test]
fn test_submit_proposal_invalid_params() {
    let (config, mut global) = th_setup();
    let d = TEST_PROPOSAL_REQUIRED_DEPOSIT;
    let long = |n: usize| (0..n).map(|_| "a").collect::<String>();

    let err = submit(&config, &mut global, "mars_token", d, s("a"), s("A valid description"), None)
        .unwrap_err();
    assert_eq!(err, ContractError::InvalidProposal { error: s("Title too short") });
    let err =
        submit(&config, &mut global, "mars_token", d, long(100), s("A valid description"), None)
            .unwrap_err();
    assert_eq!(err, ContractError::InvalidProposal { error: s("Title too long") });
    let err = submit(&config, &mut global, "mars_token", d, s("A valid Title"), s("a"), None)
        .unwrap_err();
    assert_eq!(err, ContractError::InvalidProposal { error: s("Description too short") });
    let err = submit(&config, &mut global, "mars_token", d, s("A valid Title"), long(1030), None)
        .unwrap_err();
    assert_eq!(err, ContractError::InvalidProposal { error: s("Description too long") });
    let err = submit(
        &config,
        &mut global,
        "mars_token",
        d,
        s("A valid Title"),
        s("A valid description"),
        Some(s("a")),
    )
    .unwrap_err();
    assert_eq!(err, ContractError::InvalidProposal { error: s("Link too short") });
    let err = submit(
        &config,
        &mut global,
        "mars_token",
        d,
        s("A valid Title"),
        s("A valid description"),
        Some(long(150)),
    )
    .unwrap_err();
    assert_eq!(err, ContractError::InvalidProposal { error: s("Link too long") });

    // deposit below the requirement
    let err = submit(
        &config,
        &mut global,
        "mars_token",
        d - 100,
        s("A valid Title"),
        s("A valid description"),
        None,
    )
    .unwrap_err();
    assert_eq!(err, ContractError::InsufficientProposalDeposit { required: d });

    // deposit in another token
    let err = submit(
        &config,
        &mut global,
        "someothertoken",
        d,
        s("A valid Title"),
        s("A valid description"),
        None,
    )
    .unwrap_err();
    assert_eq!(err, ContractError::Unauthorized);
    assert_eq!(global.proposal_count, 0);
}

#[test]
fn test_submit_proposal() {
    let (config, mut global) = th_setup();
    let (id, proposal) = submit(
        &config,
        &mut global,
        "mars_token",
        TEST_PROPOSAL_REQUIRED_DEPOSIT,
        s("A valid title"),
        s("A valid description"),
        None,
    )
    .unwrap();
    let expected_end_height = 100_000 + TEST_PROPOSAL_VOTING_PERIOD;
    assert_eq!(id, 1);
    assert_eq!(global.proposal_count, 1);
    assert_eq!(proposal.submitter_address, "submitter");
    assert_eq!(proposal.status, ProposalStatus::Active);
    assert_eq!(proposal.for_votes, 0);
    assert_eq!(proposal.against_votes, 0);
    assert_eq!(proposal.start_height, 100_000);
    assert_eq!(proposal.end_height, expected_end_height);
    assert_eq!(proposal.title, "A valid title");
    assert_eq!(proposal.description, "A valid description");
    assert_eq!(proposal.link, None);
    assert!(proposal.execute_calls.is_none());
    assert_eq!(proposal.deposit_amount, TEST_PROPOSAL_REQUIRED_DEPOSIT);

    // with link and calls
    let (id, proposal) = handle_submit_proposal(
        &config,
        &mut global,
        &s("mars_token"),
        s("submitter"),
        TEST_PROPOSAL_REQUIRED_DEPOSIT,
        s("A valid title"),
        s("A valid description"),
        Some(s("https://www.avalidlink.com")),
        Some(vec![ProposalExecuteCall {
            execution_order: 0,
            target_contract_address: s("cosmos2contract"),
            msg: vec![1, 2, 3],
        }]),
        100_000,
    )
    .unwrap();
    assert_eq!(id, 2);
    assert_eq!(global.proposal_count, 2);
    assert_eq!(proposal.end_height, expected_end_height);
    assert_eq!(proposal.link, Some(s("https://www.avalidlink.com")));
    let calls = proposal.execute_calls.unwrap();
    assert_eq!(calls.len(), 1);
    assert_eq!(calls[0].execution_order, 0);
    assert_eq!(calls[0].target_contract_address, "cosmos2contract");
    assert_eq!(calls[0].msg, vec![1u8, 2, 3]);
}

#[test]
fn test_invalid_cast_votes() {
    let (config, _) = th_setup();
    let mut executed = mock_proposal(ProposalStatus::Executed, 0, 0, 100_000, 100_100, None);
    let mut active = mock_proposal(ProposalStatus::Active, 0, 0, 100_000, 100_100, None);

    // voting on an inactive proposal
    let err = handle_cast_vote(&config, &mut executed, 100_001, false, 100, ProposalVoteOption::For)
        .unwrap_err();
    assert_eq!(err, ContractError::ProposalNotActive);
    // voting after the proposal end
    let err = handle_cast_vote(&config, &mut active, 100_200, false, 100, ProposalVoteOption::For)
        .unwrap_err();
    assert_eq!(err, ContractError::VoteProposalExpired);
    // voting without voting power
    let err = handle_cast_vote(&config, &mut active, 100_001, false, 0, ProposalVoteOption::For)
        .unwrap_err();
    assert_eq!(err, ContractError::VoteNoVotingPower { block: 99_999 });
    assert_eq!(active.for_votes, 0);
    assert_eq!(active.against_votes, 0);
}

#[test]
fn test_cast_vote() {
    let (config, _) = th_setup();
    let mut active = mock_proposal(ProposalStatus::Active, 0, 0, 100_000, 100_100, None);

    let vote =
        handle_cast_vote(&config, &mut active, 100_001, false, 100, ProposalVoteOption::For)
            .unwrap();
    assert_eq!(vote, ProposalVote { option: ProposalVoteOption::For, power: 100 });
    assert_eq!(vote.option.to_string(), "for");
    assert_eq!(active.for_votes, 100);
    assert_eq!(active.against_votes, 0);

    // voting again with the same address fails
    let err = handle_cast_vote(&config, &mut active, 100_001, true, 100, ProposalVoteOption::For)
        .unwrap_err();
    assert_eq!(err, ContractError::VoteUserAlreadyVoted);

    let vote =
        handle_cast_vote(&config, &mut active, 100_001, false, 200, ProposalVoteOption::Against)
            .unwrap();
    assert_eq!(vote.option.to_string(), "against");
    assert_eq!(vote.power, 200);
    handle_cast_vote(&config, &mut active, 100_001, false, 300, ProposalVoteOption::For).unwrap();
    handle_cast_vote(&config, &mut active, 100_001, false, 400, ProposalVoteOption::Against)
        .unwrap();
    assert_eq!(active.for_votes, 100 + 300);
    assert_eq!(active.against_votes, 200 + 400);
}

#[test]
fn test_invalid_end_proposals() {
    let (config, _) = th_setup();
    let mut active = mock_proposal(ProposalStatus::Active, 0, 0, 1, 100_000, None);
    let mut executed = mock_proposal(ProposalStatus::Executed, 0, 0, 1, 1, None);
    let err = handle_end_proposal(&config, &mut active, 100_000, 100).unwrap_err();
    assert_eq!(err, ContractError::EndVotingPeriodNotEnded);
    let err = handle_end_proposal(&config, &mut executed, 100_001, 100).unwrap_err();
    assert_eq!(err, ContractError::ProposalNotActive);
}

#[test]
fn test_end_proposal() {
    let (mut config, _) = th_setup();
    config.proposal_required_threshold = dec(51, 100);
    config.proposal_required_quorum = dec(2, 100);
    let end_height = 100_000u64 + 1;
    let total_voting_power = 100_000u128;

    // passed: the deposit goes back to the submitter
    let mut p = mock_proposal(ProposalStatus::Active, 11_000, 10_000, 90_000, end_height, None);
    let res = handle_end_proposal(&config, &mut p, end_height + 1, total_voting_power).unwrap();
    assert_eq!(res.status, ProposalStatus::Passed);
    assert_eq!(res.deposit_recipient, "submitter");
    assert_eq!(res.deposit_amount, TEST_PROPOSAL_REQUIRED_DEPOSIT);
    assert_eq!(p.status, ProposalStatus::Passed);

    // rejected for lack of quorum: the deposit goes to the staking contract
    let mut p = mock_proposal(ProposalStatus::Active, 11, 10, 90_000, end_height, None);
    let res = handle_end_proposal(&config, &mut p, end_height + 1, total_voting_power).unwrap();
    assert_eq!(res.status, ProposalStatus::Rejected);
    assert_eq!(res.deposit_recipient, "staking_contract");
    assert_eq!(p.status, ProposalStatus::Rejected);

    // rejected for lack of threshold
    let mut p = mock_proposal(ProposalStatus::Active, 10_000, 11_000, 90_000, end_height, None);
    let res = handle_end_proposal(&config, &mut p, end_height + 1, total_voting_power).unwrap();
    assert_eq!(res.status, ProposalStatus::Rejected);
    assert_eq!(res.deposit_recipient, "staking_contract");
    assert_eq!(p.status, ProposalStatus::Rejected);
}

fn call(order: u64, tag: u8) -> ProposalExecuteCall {
    ProposalExecuteCall {
        execution_order: order,
        target_contract_address: s("cosmos2contract"),
        msg: vec![tag],
    }
}

#[test]
fn test_invalid_execute_proposals() {
    let (config, _) = th_setup();
    let mut passed = mock_proposal(ProposalStatus::Passed, 0, 0, 1, 100_000, None);
    let mut executed = mock_proposal(ProposalStatus::Executed, 0, 0, 1, 1, None);

    let err = handle_execute_proposal(&config, &mut executed, 1 + TEST_PROPOSAL_EFFECTIVE_DELAY + 1)
        .unwrap_err();
    assert_eq!(
        err,
        ContractError::Generic { msg: s("Proposal has not passed or has already been executed") }
    );
    let err = handle_execute_proposal(&config, &mut passed, 100_000 + 1).unwrap_err();
    assert_eq!(err, ContractError::ExecuteProposalDelayNotEnded);
    let err = handle_execute_proposal(
        &config,
        &mut passed,
        100_000 + TEST_PROPOSAL_EFFECTIVE_DELAY + TEST_PROPOSAL_EXPIRATION_PERIOD + 1,
    )
    .unwrap_err();
    assert_eq!(err, ContractError::Generic { msg: s("Proposal has expired") });
    assert_eq!(passed.status, ProposalStatus::Passed);
}

#[test]
fn test_execute_proposals() {
    let (config, _) = th_setup();
    let mut p = mock_proposal(
        ProposalStatus::Passed,
        0,
        0,
        1,
        100_000,
        Some(vec![call(2, 10), call(3, 20), call(1, 30)]),
    );
    let order =
        handle_execute_proposal(&config, &mut p, 100_000 + TEST_PROPOSAL_EFFECTIVE_DELAY + 1)
            .unwrap();
    assert_eq!(order, vec![2usize, 0, 1]);
    assert_eq!(p.status, ProposalStatus::Executed);
}

#[test]
fn execution_order_is_stable() {
    let calls = vec![call(5, 0), call(1, 1), call(5, 2), call(0, 3), call(1, 4)];
    assert_eq!(execution_order(&calls), vec![3usize, 1, 4, 0, 2]);
    assert_eq!(execution_order(&vec![]), Vec::<usize>::new());
}

#[test]
fn latest_executed_and_pages() {
    let proposals = vec![
        mock_proposal(ProposalStatus::Executed, 0, 0, 1, 1, None),
        mock_proposal(ProposalStatus::Executed, 0, 0, 1, 1, None),
        mock_proposal(ProposalStatus::Rejected, 0, 0, 1, 1, None),
    ];
    assert_eq!(query_latest_executed_proposal(&proposals), Ok(1));
    assert_eq!(
        query_latest_executed_proposal(&vec![]),
        Err(ContractError::Generic { msg: s("No executed proposals found") })
    );
    assert_eq!(proposals_page(None, None), (1, 10));
    assert_eq!(proposals_page(Some(5), Some(100)), (5, 30));
    assert_eq!(proposals_page(Some(5), Some(7)), (5, 7));
}

#[test]
fn no_votes_never_pass() {
    let (mut config, _) = th_setup();
    config.proposal_required_quorum = dec(1, 100);
    config.proposal_required_threshold = dec(0, 1);
    let mut p = mock_proposal(ProposalStatus::Active, 0, 0, 10, 20, None);
    let res = handle_end_proposal(&config, &mut p, 21, 1_000).unwrap();
    assert_eq!(res.status, ProposalStatus::Rejected);
}

#[test]
fn ended_and_executed_proposals_stay_closed() {
    let (mut config, _) = th_setup();
    config.proposal_required_threshold = dec(51, 100);
    config.proposal_required_quorum = dec(2, 100);
    let end_height = 100_001u64;
    let mut p = mock_proposal(ProposalStatus::Active, 11_000, 10_000, 90_000, end_height, None);
    handle_end_proposal(&config, &mut p, end_height + 1, 100_000).unwrap();
    // no further vote, and no second end
    assert_eq!(
        handle_cast_vote(&config, &mut p, end_height, false, 100, ProposalVoteOption::For),
        Err(ContractError::ProposalNotActive)
    );
    assert_eq!(
        handle_end_proposal(&config, &mut p, end_height + 2, 100_000).unwrap_err(),
        ContractError::ProposalNotActive
    );
    // executed once, then refused
    let at = end_height + TEST_PROPOSAL_EFFECTIVE_DELAY;
    assert_eq!(handle_execute_proposal(&config, &mut p, at), Ok(vec![]));
    assert_eq!(p.status, ProposalStatus::Executed);
    assert_eq!(
        handle_execute_proposal(&config, &mut p, at),
        Err(ContractError::Generic { msg: s("Proposal has not passed or has already been executed") })
    );
}
