//! The contract method descriptors.
//!
//! A small static table maps each contract method the service calls
//! to its parsed ABI function descriptor, built once at process
//! start from the fixed signatures of the vault, token and bridge
//! contracts.

use vstd::prelude::*;
use crate::abi::parse_function;

verus! {

pub(crate) const SYMBOL_ABI: &'static str = "{\"name\":\"symbol\",\"inputs\":[],\"outputs\":[{\"name\":\"\",\"type\":\"string\"}]}";

pub(crate) const DECIMALS_ABI: &'static str = "{\"name\":\"decimals\",\"inputs\":[],\"outputs\":[{\"name\":\"\",\"type\":\"uint8\"}]}";

pub(crate) const BALANCE_OF_ABI: &'static str = "{\"name\":\"balanceOf\",\"inputs\":[{\"name\":\"owner\",\"type\":\"address\"}],\"outputs\":[{\"name\":\"\",\"type\":\"uint256\"}]}";

pub(crate) const TOKEN_ABI: &'static str = "{\"name\":\"token\",\"inputs\":[],\"outputs\":[{\"name\":\"\",\"type\":\"address\"}]}";

pub(crate) const TOTAL_ASSETS_ABI: &'static str = "{\"name\":\"totalAssets\",\"inputs\":[],\"outputs\":[{\"name\":\"\",\"type\":\"uint256\"}]}";

pub(crate) const WITHDRAW_LIMIT_PER_PERIOD_ABI: &'static str = "{\"name\":\"withdrawLimitPerPeriod\",\"inputs\":[],\"outputs\":[{\"name\":\"\",\"type\":\"uint256\"}]}";

pub(crate) const WITHDRAWAL_PERIODS_ABI: &'static str = "{\"name\":\"withdrawalPeriods\",\"inputs\":[{\"name\":\"period\",\"type\":\"uint256\"}],\"outputs\":[{\"name\":\"\",\"type\":\"tuple\",\"components\":[{\"name\":\"total\",\"type\":\"uint256\"},{\"name\":\"considered\",\"type\":\"uint256\"}]}]}";

pub(crate) const LAST_ROUND_ABI: &'static str = "{\"name\":\"lastRound\",\"inputs\":[],\"outputs\":[{\"name\":\"\",\"type\":\"uint256\"}]}";

pub(crate) const ROUNDS_ABI: &'static str = "{\"name\":\"rounds\",\"inputs\":[{\"name\":\"round\",\"type\":\"uint256\"}],\"outputs\":[{\"name\":\"\",\"type\":\"uint256\"},{\"name\":\"\",\"type\":\"uint256\"},{\"name\":\"relayCount\",\"type\":\"uint256\"}]}";

/// The parsed descriptors of every contract method the service calls.
pub struct ContractTable {
    pub symbol: web3::ethabi::Function,
    pub decimals: web3::ethabi::Function,
    pub balance_of: web3::ethabi::Function,
    pub token: web3::ethabi::Function,
    pub total_assets: web3::ethabi::Function,
    pub withdraw_limit_per_period: web3::ethabi::Function,
    pub withdrawal_periods: web3::ethabi::Function,
    pub last_round: web3::ethabi::Function,
    pub rounds: web3::ethabi::Function,
}

impl ContractTable {
    /// Parses every method descriptor once.  The nine descriptors are
    /// fixed, valid text, so construction always succeeds; a failure
    /// would indicate a build-time descriptor mismatch, which the
    /// contract rules out.
    pub fn new() -> (r: Option<ContractTable>)
        ensures
            r is Some,
    {
        let symbol = parse_function(SYMBOL_ABI).unwrap();
        let decimals = parse_function(DECIMALS_ABI).unwrap();
        let balance_of = parse_function(BALANCE_OF_ABI).unwrap();
        let token = parse_function(TOKEN_ABI).unwrap();
        let total_assets = parse_function(TOTAL_ASSETS_ABI).unwrap();
        let withdraw_limit_per_period = parse_function(WITHDRAW_LIMIT_PER_PERIOD_ABI).unwrap();
        let withdrawal_periods = parse_function(WITHDRAWAL_PERIODS_ABI).unwrap();
        let last_round = parse_function(LAST_ROUND_ABI).unwrap();
        let rounds = parse_function(ROUNDS_ABI).unwrap();
        Some(
            ContractTable {
                symbol,
                decimals,
                balance_of,
                token,
                total_assets,
                withdraw_limit_per_period,
                withdrawal_periods,
                last_round,
                rounds,
            },
        )
    }
}

} // verus!
