# mars_protocol

The decision logic of the Mars lending protocol's CosmWasm contracts, written in Verus
and proved against its contracts.

- `src/` is the verified library. Each contract's handlers are functions from the values
  they read (configuration, reserves, balances, prices, the sender) to the values they
  write and the error they return; storage, queries and messages are not part of it.
  `src/red_bank/` holds the money market: interest indices and rates, deposits,
  redemptions, borrowing, repayment, liquidation and maToken transfer bookkeeping.
- `tests/` runs the library on concrete values.
- `app/` holds CosmWasm entry points for some of the contracts: message types, storage
  and queries around the library's functions.

Calls into `cosmwasm_std` and `cw20_base` go through a few
trusted wrappers in `src/math.rs` and `src/ma_token.rs`, each documented with what its
contract claims of the outside function.

## Numbers

Amounts and balances that the contracts exchange as `Uint128` are `u128`. The money
market's 256-bit numbers are held in full as `math::U256`, two 128-bit words: scaled debts
(`Uint256`) directly, and fixed-point decimals (`Decimal256`: interest indices, rates,
prices, factors) as 256-bit atomics with 18 fractional digits. Every product and quotient
of the money market is taken through `cosmwasm_std::Uint256::multiply_ratio`, so the
`requires` of its functions only leave out overflow at 2^256, division by zero, underflow,
and results that the contracts hand on as `Uint128`.
