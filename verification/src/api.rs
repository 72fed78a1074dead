//! The chain-client abstraction: typed contract getters.
//!
//! Each getter of the call surface splits into an encoder,
//! which builds the call data, and a decoder, which checks the shape
//! of the decoded output and extracts the typed result.  The shape
//! checks are verified exactly over plain values; only the raw
//! encoding and decoding behind them is trusted.

use vstd::prelude::*;
use crate::abi::{AbiArg, AbiValue, decode_call, encode_call, value_wf};
use crate::address::{Address, address_of_bytes};
use crate::contracts::ContractTable;
use crate::digits::{all_dec_digits, dec_to_u32, dec_val, is_canonical_dec};

verus! {

/// The transient error of a periodic tick: the call's decoded output
/// did not have the expected shape.
#[derive(Clone, Copy, PartialEq, Eq, Structural, Debug)]
pub enum ListenerError {
    InvalidOutput,
}

/// Whether position `i` of the decoded output holds a uint whose
/// numeral fits a `u32`.
pub open spec fn u32_output_at(values: Seq<AbiValue>, i: int) -> bool {
    &&& values.len() > i
    &&& values[i] is Uint
    &&& values[i]->dec@.len() > 0
    &&& all_dec_digits(values[i]->dec@)
    &&& dec_val(values[i]->dec@) <= u32::MAX
}

fn parse_u32_at(values: &Vec<AbiValue>, i: usize) -> (r: Result<u32, ListenerError>)
    ensures
        r is Ok <==> u32_output_at(values@, i as int),
        r is Ok ==> r->Ok_0 == dec_val(values@[i as int]->dec@),
        r is Err ==> r == Err::<u32, ListenerError>(ListenerError::InvalidOutput),
{
    if values.len() <= i {
        return Err(ListenerError::InvalidOutput);
    }
    match &values[i] {
        AbiValue::Uint { dec } => match dec_to_u32(dec.as_str()) {
            Some(v) => {
                proof {
                    crate::digits::lemma_dec_val_nonneg(dec@);
                }
                Ok(v)
            },
            None => Err(ListenerError::InvalidOutput),
        },
        _ => Err(ListenerError::InvalidOutput),
    }
}

/// Reads `lastRound()`: the first output, a uint fitting a `u32`.
pub fn parse_last_round(values: &Vec<AbiValue>) -> (r: Result<u32, ListenerError>)
    ensures
        r is Ok <==> u32_output_at(values@, 0),
        r is Ok ==> r->Ok_0 == dec_val(values@[0]->dec@),
        r is Err ==> r == Err::<u32, ListenerError>(ListenerError::InvalidOutput),
{
    parse_u32_at(values, 0)
}

/// Reads `rounds(round)`: the third output, a uint fitting a `u32`,
/// is the relay count.
pub fn parse_relay_count(values: &Vec<AbiValue>) -> (r: Result<u32, ListenerError>)
    ensures
        r is Ok <==> u32_output_at(values@, 2),
        r is Ok ==> r->Ok_0 == dec_val(values@[2]->dec@),
        r is Err ==> r == Err::<u32, ListenerError>(ListenerError::InvalidOutput),
{
    parse_u32_at(values, 2)
}

/// Reads `token()`: the first output, an address.
pub fn parse_vault_token(values: &Vec<AbiValue>) -> (r: Result<Address, ListenerError>)
    ensures
        r is Ok <==> (values@.len() > 0 && values@[0] is Address && values@[0]->bytes@.len()
            == 20),
        r is Ok ==> r->Ok_0 == address_of_bytes(values@[0]->bytes@),
        r is Err ==> r == Err::<Address, ListenerError>(ListenerError::InvalidOutput),
{
    if values.len() == 0 {
        return Err(ListenerError::InvalidOutput);
    }
    match &values[0] {
        AbiValue::Address { bytes } => {
            if bytes.len() == 20 {
                Ok(Address::from_bytes(bytes))
            } else {
                Err(ListenerError::InvalidOutput)
            }
        },
        _ => Err(ListenerError::InvalidOutput),
    }
}

/// Reads `symbol()`: the first output, a string.
pub fn parse_symbol(values: &Vec<AbiValue>) -> (r: Result<String, ListenerError>)
    ensures
        r is Ok <==> (values@.len() > 0 && values@[0] is Text),
        r is Ok ==> r->Ok_0@ == values@[0]->text@,
        r is Err ==> r == Err::<String, ListenerError>(ListenerError::InvalidOutput),
{
    if values.len() == 0 {
        return Err(ListenerError::InvalidOutput);
    }
    match &values[0] {
        AbiValue::Text { text } => Ok(text.clone()),
        _ => Err(ListenerError::InvalidOutput),
    }
}

/// Reads `decimals()`: the first output, a uint no larger than 255.
pub fn parse_decimals(values: &Vec<AbiValue>) -> (r: Result<u8, ListenerError>)
    ensures
        r is Ok <==> (u32_output_at(values@, 0) && dec_val(values@[0]->dec@) <= 255),
        r is Ok ==> r->Ok_0 == dec_val(values@[0]->dec@),
        r is Err ==> r == Err::<u8, ListenerError>(ListenerError::InvalidOutput),
{
    match parse_u32_at(values, 0) {
        Ok(v) => {
            if v <= 255 {
                Ok(v as u8)
            } else {
                Err(ListenerError::InvalidOutput)
            }
        },
        Err(e) => Err(e),
    }
}

/// Reads a single-uint output (`balanceOf`, `totalAssets`,
/// `withdrawLimitPerPeriod`): the first output's decimal numeral,
/// exactly as decoded.
pub fn parse_uint_value(values: &Vec<AbiValue>) -> (r: Result<String, ListenerError>)
    ensures
        r is Ok <==> (values@.len() > 0 && values@[0] is Uint),
        r is Ok ==> r->Ok_0@ == values@[0]->dec@,
        r is Err ==> r == Err::<String, ListenerError>(ListenerError::InvalidOutput),
{
    if values.len() == 0 {
        return Err(ListenerError::InvalidOutput);
    }
    match &values[0] {
        AbiValue::Uint { dec } => Ok(dec.clone()),
        _ => Err(ListenerError::InvalidOutput),
    }
}

/// Reads `withdrawalPeriods(period)`: the first output, a tuple whose
/// first two members are uints — the period's total and considered
/// amounts, as decimal numerals.
pub fn parse_withdrawal_period_stats(values: &Vec<AbiValue>) -> (r: Result<
    (String, String),
    ListenerError,
>)
    ensures
        r is Ok <==> (values@.len() > 0 && values@[0] is Tuple && values@[0]->items@.len() >= 2
            && values@[0]->items@[0] is Uint && values@[0]->items@[1] is Uint),
        r is Ok ==> r->Ok_0.0@ == values@[0]->items@[0]->dec@ && r->Ok_0.1@
            == values@[0]->items@[1]->dec@,
        r is Err ==> r == Err::<(String, String), ListenerError>(ListenerError::InvalidOutput),
{
    if values.len() == 0 {
        return Err(ListenerError::InvalidOutput);
    }
    match &values[0] {
        AbiValue::Tuple { items } => {
            if items.len() < 2 {
                return Err(ListenerError::InvalidOutput);
            }
            match (&items[0], &items[1]) {
                (AbiValue::Uint { dec: total }, AbiValue::Uint { dec: considered }) => Ok(
                    (total.clone(), considered.clone()),
                ),
                _ => Err(ListenerError::InvalidOutput),
            }
        },
        _ => Err(ListenerError::InvalidOutput),
    }
}

impl ContractTable {
    /// Call data for `symbol()` on a token.
    pub fn encode_symbol(&self) -> Option<Vec<u8>> {
        encode_call(&self.symbol, &Vec::new())
    }

    /// Call data for `decimals()` on a token.
    pub fn encode_decimals(&self) -> Option<Vec<u8>> {
        encode_call(&self.decimals, &Vec::new())
    }

    /// Call data for `balanceOf(vault)` on a token.
    pub fn encode_balance_of(&self, vault: &Address) -> Option<Vec<u8>> {
        let mut args: Vec<AbiArg> = Vec::new();
        args.push(AbiArg::AddressBytes { bytes: vault.to_bytes() });
        encode_call(&self.balance_of, &args)
    }

    /// Call data for `token()` on a vault.
    pub fn encode_token(&self) -> Option<Vec<u8>> {
        encode_call(&self.token, &Vec::new())
    }

    /// Call data for `totalAssets()` on a vault.
    pub fn encode_total_assets(&self) -> Option<Vec<u8>> {
        encode_call(&self.total_assets, &Vec::new())
    }

    /// Call data for `withdrawLimitPerPeriod()` on a vault.
    pub fn encode_withdraw_limit_per_period(&self) -> Option<Vec<u8>> {
        encode_call(&self.withdraw_limit_per_period, &Vec::new())
    }

    /// Call data for `withdrawalPeriods(period)` on a vault.
    pub fn encode_withdrawal_periods(&self, period: u32) -> Option<Vec<u8>> {
        let mut args: Vec<AbiArg> = Vec::new();
        args.push(AbiArg::U32 { value: period });
        encode_call(&self.withdrawal_periods, &args)
    }

    /// Call data for `lastRound()` on a bridge proxy.
    pub fn encode_last_round(&self) -> Option<Vec<u8>> {
        encode_call(&self.last_round, &Vec::new())
    }

    /// Call data for `rounds(round)` on a bridge proxy.
    pub fn encode_rounds(&self, round: u32) -> Option<Vec<u8>> {
        let mut args: Vec<AbiArg> = Vec::new();
        args.push(AbiArg::U32 { value: round });
        encode_call(&self.rounds, &args)
    }

    /// Decodes a `lastRound()` response.
    pub fn decode_last_round(&self, data: &Vec<u8>) -> Result<u32, ListenerError> {
        match decode_call(&self.last_round, data) {
            Some(values) => parse_last_round(&values),
            None => Err(ListenerError::InvalidOutput),
        }
    }

    /// Decodes a `rounds(round)` response into the relay count.
    pub fn decode_relay_count(&self, data: &Vec<u8>) -> Result<u32, ListenerError> {
        match decode_call(&self.rounds, data) {
            Some(values) => parse_relay_count(&values),
            None => Err(ListenerError::InvalidOutput),
        }
    }

    /// Decodes a `token()` response.
    pub fn decode_vault_token(&self, data: &Vec<u8>) -> Result<Address, ListenerError> {
        match decode_call(&self.token, data) {
            Some(values) => parse_vault_token(&values),
            None => Err(ListenerError::InvalidOutput),
        }
    }

    /// Decodes a `symbol()` response.
    pub fn decode_symbol(&self, data: &Vec<u8>) -> Result<String, ListenerError> {
        match decode_call(&self.symbol, data) {
            Some(values) => parse_symbol(&values),
            None => Err(ListenerError::InvalidOutput),
        }
    }

    /// Decodes a `decimals()` response: a precision of at most 255.
    pub fn decode_decimals(&self, data: &Vec<u8>) -> (r: Result<u8, ListenerError>)
        ensures
            r is Ok ==> r->Ok_0 <= 255,
    {
        match decode_call(&self.decimals, data) {
            Some(values) => parse_decimals(&values),
            None => Err(ListenerError::InvalidOutput),
        }
    }

    /// Decodes a single-uint response (`balanceOf`, `totalAssets`,
    /// `withdrawLimitPerPeriod`) into its decimal numeral, which the
    /// conversion from decoded tokens guarantees canonical.
    pub fn decode_uint_value(&self, f: UintGetter, data: &Vec<u8>) -> (r: Result<
        String,
        ListenerError,
    >)
        ensures
            r is Ok ==> is_canonical_dec(r->Ok_0@),
    {
        let function = match f {
            UintGetter::BalanceOf => &self.balance_of,
            UintGetter::TotalAssets => &self.total_assets,
            UintGetter::WithdrawLimitPerPeriod => &self.withdraw_limit_per_period,
        };
        match decode_call(function, data) {
            Some(values) => {
                let r = parse_uint_value(&values);
                proof {
                    if r is Ok {
                        assert(value_wf(values@[0]));
                    }
                }
                r
            },
            None => Err(ListenerError::InvalidOutput),
        }
    }

    /// Decodes a `withdrawalPeriods(period)` response into the
    /// period's total and considered numerals, both canonical.
    pub fn decode_withdrawal_period_stats(&self, data: &Vec<u8>) -> (r: Result<
        (String, String),
        ListenerError,
    >)
        ensures
            r is Ok ==> is_canonical_dec(r->Ok_0.0@) && is_canonical_dec(r->Ok_0.1@),
    {
        match decode_call(&self.withdrawal_periods, data) {
            Some(values) => {
                let r = parse_withdrawal_period_stats(&values);
                proof {
                    if r is Ok {
                        assert(value_wf(values@[0]));
                        assert(crate::abi::inner_value_wf(values@[0]->items@[0]));
                        assert(crate::abi::inner_value_wf(values@[0]->items@[1]));
                    }
                }
                r
            },
            None => Err(ListenerError::InvalidOutput),
        }
    }
}

/// The single-uint getters that share one response shape.
#[derive(Clone, Copy, PartialEq, Eq, Structural, Debug)]
pub enum UintGetter {
    BalanceOf,
    TotalAssets,
    WithdrawLimitPerPeriod,
}

} // verus!
