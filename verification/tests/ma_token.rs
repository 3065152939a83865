use mars_protocol::error::ContractError;
use mars_protocol::ma_token::{
    execute_burn, execute_mint, execute_send, execute_transfer, execute_transfer_on_liquidation,
    check_migration, instantiate, Account, Config, Ledger, MinterData, TokenInfo, TransferInfo,
};

fn s(x: &str) -> String {
    x.to_string()
}

fn config() -> Config {
    Config { red_bank_address: s("red_bank"), incentives_address: s("incentives") }
}

fn do_instantiate(addr: &str, amount: u128, mint: Option<MinterData>) -> Ledger {
    let ledger = instantiate(s("Auto Gen"), s("AUTO"), 3, vec![(s(addr), amount)], mint).unwrap();
    assert_eq!(ledger.token_info.total_supply, amount);
    assert_eq!(ledger.balance(&s(addr)), amount);
    ledger
}

#[test]
fn proper_instantiation() {
    let amount = 11223344u128;
    let ledger =
        instantiate(s("Cash Token"), s("CASH"), 9, vec![(s("addr0000"), amount)], None).unwrap();
    assert_eq!(ledger.token_info.name, "Cash Token");
    assert_eq!(ledger.token_info.symbol, "CASH");
    assert_eq!(ledger.token_info.decimals, 9);
    assert_eq!(ledger.token_info.total_supply, amount);
    assert_eq!(ledger.balance(&s("addr0000")), 11223344);
    let cfg = config();
    assert_eq!(cfg.red_bank_address, "red_bank");
    assert_eq!(cfg.incentives_address, "incentives");
}

#[test]
fn instantiate_mintable() {
    let amount = 11223344u128;
    let limit = 511223344u128;
    let ledger = instantiate(
        s("Cash Token"),
        s("CASH"),
        9,
        vec![(s("addr0000"), amount)],
        Some(MinterData { minter: s("asmodat"), cap: Some(limit) }),
    )
    .unwrap();
    assert_eq!(ledger.token_info.total_supply, amount);
    assert_eq!(ledger.balance(&s("addr0000")), 11223344);
    let mint = ledger.token_info.mint.as_ref().unwrap();
    assert_eq!(mint.minter, "asmodat");
    assert_eq!(mint.cap, Some(limit));
}

#[test]
fn instantiate_mintable_over_cap() {
    let err = instantiate(
        s("Cash Token"),
        s("CASH"),
        9,
        vec![(s("addr0000"), 11223344)],
        Some(MinterData { minter: s("asmodat"), cap: Some(11223300) }),
    )
    .unwrap_err();
    assert_eq!(err, ContractError::Generic { msg: s("Initial supply greater than cap") });
}

#[test]
fn can_mint_by_minter() {
    let genesis = s("genesis");
    let amount = 11223344u128;
    let minter = s("asmodat");
    let limit = 511223344u128;
    let mut ledger = do_instantiate(
        "genesis",
        amount,
        Some(MinterData { minter: minter.clone(), cap: Some(limit) }),
    );

    let winner = s("lucky");
    let prize = 222_222_222u128;
    let res = execute_mint(&mut ledger, &minter, &winner, prize).unwrap();
    // the balance change reported to incentives: balance before and supply before
    assert_eq!(res, (0, amount));
    assert_eq!(ledger.balance(&genesis), amount);
    assert_eq!(ledger.balance(&winner), prize);
    assert_eq!(ledger.token_info.total_supply, amount + prize);

    // but cannot mint nothing
    let err = execute_mint(&mut ledger, &minter, &winner, 0).unwrap_err();
    assert_eq!(err, ContractError::ZeroAmount);

    // the cap is enforced, even over multiple rounds
    let err = execute_mint(&mut ledger, &minter, &winner, 333_222_222).unwrap_err();
    assert_eq!(err, ContractError::CannotExceedCap);
    assert_eq!(ledger.token_info.total_supply, amount + prize);
}

#[test]
fn others_cannot_mint() {
    let mut ledger = do_instantiate(
        "genesis",
        1234,
        Some(MinterData { minter: s("minter"), cap: None }),
    );
    let err = execute_mint(&mut ledger, &s("anyone else"), &s("lucky"), 222).unwrap_err();
    assert_eq!(err, ContractError::Unauthorized);
}

#[test]
fn no_one_mints_if_minter_unset() {
    let mut ledger = do_instantiate("genesis", 1234, None);
    let err = execute_mint(&mut ledger, &s("genesis"), &s("lucky"), 222).unwrap_err();
    assert_eq!(err, ContractError::Unauthorized);
}

#[test]
fn instantiate_multiple_accounts() {
    let amount1 = 11223344u128;
    let amount2 = 7890987u128;
    let ledger = instantiate(
        s("Bash Shell"),
        s("BASH"),
        6,
        vec![(s("addr0001"), amount1), (s("addr0002"), amount2)],
        None,
    )
    .unwrap();
    assert_eq!(ledger.token_info.total_supply, amount1 + amount2);
    assert_eq!(ledger.balance(&s("addr0001")), amount1);
    assert_eq!(ledger.balance(&s("addr0002")), amount2);
}

#[test]
fn transfer() {
    let addr1 = s("addr0001");
    let addr2 = s("addr0002");
    let amount1 = 12340000u128;
    let transfer = 76543u128;
    let too_much = 12340321u128;
    let mut ledger = do_instantiate("addr0001", amount1, None);

    // cannot transfer nothing
    let err = execute_transfer(&mut ledger, &addr1, &addr2, 0).unwrap_err();
    assert_eq!(err, ContractError::ZeroAmount);

    // cannot send more than we have
    let err = execute_transfer(&mut ledger, &addr1, &addr2, too_much).unwrap_err();
    assert_eq!(err, ContractError::Overflow);

    // cannot send from empty account
    let err = execute_transfer(&mut ledger, &addr2, &addr1, transfer).unwrap_err();
    assert_eq!(err, ContractError::Overflow);

    // valid transfer
    let info = execute_transfer(&mut ledger, &addr1, &addr2, transfer).unwrap();
    assert_eq!(
        info,
        TransferInfo {
            sender_previous_balance: amount1,
            recipient_previous_balance: 0,
            total_supply: amount1,
        }
    );
    assert_eq!(ledger.balance(&addr1), amount1 - transfer);
    assert_eq!(ledger.balance(&addr2), transfer);
    assert_eq!(ledger.token_info.total_supply, amount1);
}

#[test]
fn transfer_on_liquidation() {
    let addr1 = s("addr0001");
    let addr2 = s("addr0002");
    let amount1 = 12340000u128;
    let transfer = 76543u128;
    let too_much = 12340321u128;
    let cfg = config();
    let red_bank = s("red_bank");
    let mut ledger = do_instantiate("addr0001", amount1, None);

    // cannot transfer nothing
    let err = execute_transfer_on_liquidation(&mut ledger, &cfg, &red_bank, &addr1, &addr2, 0)
        .unwrap_err();
    assert_eq!(err, ContractError::ZeroAmount);

    // cannot send more than we have
    let err =
        execute_transfer_on_liquidation(&mut ledger, &cfg, &red_bank, &addr1, &addr2, too_much)
            .unwrap_err();
    assert_eq!(err, ContractError::Overflow);

    // cannot send from empty account
    let err =
        execute_transfer_on_liquidation(&mut ledger, &cfg, &red_bank, &addr2, &addr1, transfer)
            .unwrap_err();
    assert_eq!(err, ContractError::Overflow);

    // only the red bank can call it
    let err = execute_transfer_on_liquidation(&mut ledger, &cfg, &addr1, &addr1, &addr2, transfer)
        .unwrap_err();
    assert_eq!(err, ContractError::Unauthorized);

    // valid transfer on liquidation
    let info =
        execute_transfer_on_liquidation(&mut ledger, &cfg, &red_bank, &addr1, &addr2, transfer)
            .unwrap();
    assert_eq!(info.sender_previous_balance, amount1);
    assert_eq!(info.recipient_previous_balance, 0);
    assert_eq!(info.total_supply, amount1);
    assert_eq!(ledger.balance(&addr1), amount1 - transfer);
    assert_eq!(ledger.balance(&addr2), transfer);
    assert_eq!(ledger.token_info.total_supply, amount1);
}

#[test]
fn burn() {
    let addr1 = s("addr0001");
    let amount1 = 12340000u128;
    let burn = 76543u128;
    let too_much = 12340321u128;
    let cfg = config();
    let red_bank = s("red_bank");
    let mut ledger = do_instantiate("addr0001", amount1, None);

    // cannot burn nothing
    let err = execute_burn(&mut ledger, &cfg, &red_bank, &addr1, 0).unwrap_err();
    assert_eq!(err, ContractError::ZeroAmount);
    assert_eq!(ledger.token_info.total_supply, amount1);

    // cannot burn more than we have
    let err = execute_burn(&mut ledger, &cfg, &red_bank, &addr1, too_much).unwrap_err();
    assert_eq!(err, ContractError::Overflow);
    assert_eq!(ledger.token_info.total_supply, amount1);

    // only the red bank can burn
    let err = execute_burn(&mut ledger, &cfg, &addr1, &addr1, burn).unwrap_err();
    assert_eq!(err, ContractError::Unauthorized);
    assert_eq!(ledger.token_info.total_supply, amount1);

    // a valid burn reduces the total supply
    let res = execute_burn(&mut ledger, &cfg, &red_bank, &addr1, burn).unwrap();
    assert_eq!(res, (amount1, amount1));
    assert_eq!(ledger.balance(&addr1), amount1 - burn);
    assert_eq!(ledger.token_info.total_supply, amount1 - burn);
}

#[test]
fn send() {
    let addr1 = s("addr0001");
    let contract = s("addr0002");
    let amount1 = 12340000u128;
    let transfer = 76543u128;
    let too_much = 12340321u128;
    let mut ledger = do_instantiate("addr0001", amount1, None);

    let err = execute_send(&mut ledger, &addr1, &contract, 0).unwrap_err();
    assert_eq!(err, ContractError::ZeroAmount);

    let err = execute_send(&mut ledger, &addr1, &contract, too_much).unwrap_err();
    assert_eq!(err, ContractError::Overflow);

    let info = execute_send(&mut ledger, &addr1, &contract, transfer).unwrap();
    assert_eq!(info.sender_previous_balance, amount1);
    assert_eq!(info.recipient_previous_balance, 0);
    assert_eq!(info.total_supply, amount1);
    assert_eq!(ledger.balance(&addr1), amount1 - transfer);
    assert_eq!(ledger.balance(&contract), transfer);
    assert_eq!(ledger.token_info.total_supply, amount1);
}

#[test]
fn transfer_to_self_keeps_balances() {
    let addr1 = s("addr0001");
    let mut ledger = do_instantiate("addr0001", 1000, None);
    let info = execute_transfer(&mut ledger, &addr1, &addr1, 400).unwrap();
    assert_eq!(info.sender_previous_balance, 1000);
    assert_eq!(info.recipient_previous_balance, 600);
    assert_eq!(ledger.balance(&addr1), 1000);
}

#[test]
fn transfer_and_back_restores_balances() {
    let a = s("a");
    let b = s("b");
    let mut ledger =
        instantiate(s("Two Ways"), s("TWO"), 6, vec![(a.clone(), 500), (b.clone(), 70)], None)
            .unwrap();
    execute_transfer(&mut ledger, &a, &b, 123).unwrap();
    execute_transfer(&mut ledger, &b, &a, 123).unwrap();
    assert_eq!(ledger.balance(&a), 500);
    assert_eq!(ledger.balance(&b), 70);
}

#[test]
fn instantiate_checks_metadata() {
    let err = instantiate(s("ab"), s("CASH"), 6, vec![], None).unwrap_err();
    assert_eq!(
        err,
        ContractError::Generic { msg: s("Name is not in the expected format (3-50 UTF-8 bytes)") }
    );
    let err = instantiate(s("Cash"), s("CA$H"), 6, vec![], None).unwrap_err();
    assert_eq!(
        err,
        ContractError::Generic {
            msg: s("Ticker symbol is not in expected format [a-zA-Z\\-]{3,12}")
        }
    );
    let err = instantiate(s("Cash"), s("CASH"), 19, vec![], None).unwrap_err();
    assert_eq!(err, ContractError::Generic { msg: s("Decimals must not exceed 18") });
}

#[test]
fn later_initial_balance_replaces_earlier() {
    let ledger =
        instantiate(s("Twice"), s("TWC"), 6, vec![(s("a"), 5), (s("a"), 7)], None).unwrap();
    assert_eq!(ledger.balance(&s("a")), 7);
    assert_eq!(ledger.token_info.total_supply, 12);
}

#[test]
fn purging_storage() {
    let users_balances: Vec<(&str, u128)> = vec![
        // the first 10 are all zero, so all purged
        ("a", 0),
        ("b", 0),
        ("c", 0),
        ("d", 0),
        ("e", 0),
        ("f", 0),
        ("g", 0),
        ("h", 0),
        ("i", 0),
        ("j", 0),
        // the next 10, half are zero; should update pagination to start after user `s`
        ("k", 11),
        ("l", 0),
        ("m", 13),
        ("n", 0),
        ("o", 15),
        ("p", 0),
        ("q", 17),
        ("r", 0),
        ("s", 19),
        ("t", 0),
        // the final few, all non-zero; should start after `z`
        ("u", 21),
        ("v", 22),
        ("w", 23),
        ("x", 24),
        ("y", 25),
        ("z", 26),
    ];
    // the balances as the store keeps them, ordered by address
    let accounts: Vec<Account> =
        users_balances.into_iter().map(|(u, b)| Account { address: s(u), balance: b }).collect();
    let mut ledger = Ledger {
        token_info: TokenInfo {
            name: s("Mars Token"),
            symbol: s("ma"),
            decimals: 6,
            total_supply: 216,
            mint: None,
        },
        accounts,
    };

    let purged = ledger.purge_zero_balances();
    assert_eq!(purged, vec!["a", "b", "c", "d", "e", "f", "g", "h", "i", "j", "l", "n", "p", "r", "t"]);

    let accounts: Vec<&str> = ledger.accounts.iter().map(|a| a.address.as_str()).collect();
    assert_eq!(accounts, vec!["k", "m", "o", "q", "s", "u", "v", "w", "x", "y", "z"]);
}

#[test]
fn purge_changes_no_balance() {
    let mut ledger = Ledger {
        token_info: TokenInfo { name: s("Mars Token"), symbol: s("ma"), decimals: 6, total_supply: 30, mint: None },
        accounts: vec![
            Account { address: s("a"), balance: 0 },
            Account { address: s("b"), balance: 10 },
            Account { address: s("c"), balance: 0 },
            Account { address: s("d"), balance: 20 },
        ],
    };
    let purged = ledger.purge_zero_balances();
    assert_eq!(purged, vec!["a", "c"]);
    assert_eq!(ledger.balance(&s("a")), 0);
    assert_eq!(ledger.balance(&s("b")), 10);
    assert_eq!(ledger.balance(&s("c")), 0);
    assert_eq!(ledger.balance(&s("d")), 20);
    assert_eq!(ledger.token_info.total_supply, 30);
    // a second purge finds nothing left to delete
    assert!(ledger.purge_zero_balances().is_empty());
}

#[test]
fn migration_checks_contract_and_version() {
    assert_eq!(check_migration("ma-token", &s("ma-token"), &s("v0.1.3")), Ok(()));
    assert_eq!(
        check_migration("ma-token", &s("other"), &s("v0.1.3")),
        Err(ContractError::Generic { msg: s("This is ma-token, cannot migrate from other") })
    );
    assert_eq!(
        check_migration("ma-token", &s("ma-token"), &s("v0.2.0")),
        Err(ContractError::Generic { msg: s("Unknown version v0.2.0") })
    );
}

#[test]
fn supply_matches_balances() {
    let mut ledger = instantiate(
        s("Cash Token"),
        s("CASH"),
        9,
        vec![(s("addr0000"), 1_000), (s("addr0001"), 500)],
        Some(MinterData { minter: s("minter"), cap: None }),
    )
    .unwrap();
    let total = |l: &Ledger| l.accounts.iter().map(|a| a.balance).sum::<u128>();
    assert_eq!(ledger.token_info.total_supply, total(&ledger));
    execute_transfer(&mut ledger, &s("addr0000"), &s("addr0002"), 300).unwrap();
    assert_eq!(ledger.token_info.total_supply, total(&ledger));
    execute_mint(&mut ledger, &s("minter"), &s("addr0003"), 250).unwrap();
    assert_eq!(ledger.token_info.total_supply, total(&ledger));
    execute_burn(&mut ledger, &config(), &s("red_bank"), &s("addr0001"), 100).unwrap();
    assert_eq!(ledger.token_info.total_supply, total(&ledger));
    assert_eq!(ledger.token_info.total_supply, 1_650);
}

#[test]
fn zero_transfers() {
    let mut ledger = do_instantiate("addr0000", 1_000, None);
    // the shared transfer moves nothing and succeeds for zero
    let info = ledger.transfer(&s("addr0000"), &s("addr0001"), 0).unwrap();
    assert_eq!(info.sender_previous_balance, 1_000);
    assert_eq!(ledger.balance(&s("addr0000")), 1_000);
    assert_eq!(ledger.balance(&s("addr0001")), 0);
    // the entry points refuse it
    assert_eq!(execute_transfer(&mut ledger, &s("addr0000"), &s("addr0001"), 0), Err(ContractError::ZeroAmount));
    assert_eq!(
        execute_transfer_on_liquidation(&mut ledger, &config(), &s("red_bank"), &s("addr0000"), &s("addr0001"), 0),
        Err(ContractError::ZeroAmount)
    );
}
