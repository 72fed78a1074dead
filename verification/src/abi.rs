//! The black-box contract call surface.
//!
//! Call encoding and output decoding are delegated to the chain
//! client's ABI machinery and trusted at this boundary; everything
//! the decoded values then mean is decided by verified code over the
//! plain [`AbiValue`] form.

use vstd::prelude::*;
use crate::digits::is_canonical_dec;

verus! {

/// ethabi's parsed function descriptor, carried opaquely.
#[verifier::external_type_specification]
#[verifier::external_body]
pub struct ExFunction(web3::ethabi::Function);

/// ethabi's decoded token, carried opaquely.
#[verifier::external_type_specification]
#[verifier::external_body]
pub struct ExToken(web3::ethabi::Token);

/// A decoded contract-call output as plain values.
pub enum AbiValue {
    /// A 160-bit address, as its 20 bytes.
    Address { bytes: Vec<u8> },
    /// A 256-bit unsigned integer, as its canonical decimal numeral.
    Uint { dec: String },
    /// A string value.
    Text { text: String },
    /// A tuple of values.
    Tuple { items: Vec<AbiValue> },
    /// Any other value kind, which no call here expects.
    Other,
}

/// What conversion from decoded tokens guarantees of one value:
/// addresses are 20 bytes and uints canonical decimal numerals, here
/// and one tuple level down.
pub open spec fn value_wf(v: AbiValue) -> bool {
    match v {
        AbiValue::Address { bytes } => bytes@.len() == 20,
        AbiValue::Uint { dec } => is_canonical_dec(dec@),
        AbiValue::Text { text } => true,
        AbiValue::Tuple { items } => forall|i: int|
            0 <= i < items@.len() ==> inner_value_wf(#[trigger] items@[i]),
        AbiValue::Other => true,
    }
}

/// The same shape one level inside a tuple.
pub open spec fn inner_value_wf(v: AbiValue) -> bool {
    match v {
        AbiValue::Address { bytes } => bytes@.len() == 20,
        AbiValue::Uint { dec } => is_canonical_dec(dec@),
        _ => true,
    }
}

/// Well-formedness of a decoded output list.
pub open spec fn values_wf(s: Seq<AbiValue>) -> bool {
    forall|i: int| 0 <= i < s.len() ==> value_wf(#[trigger] s[i])
}

/// An argument of a contract call.
pub enum AbiArg {
    /// A 32-bit unsigned integer, widened to uint256 on the wire.
    U32 { value: u32 },
    /// A 160-bit address, as its 20 bytes.
    AddressBytes { bytes: Vec<u8> },
}

/// Parses one function's ABI descriptor from its JSON form.
///
/// Relies on serde_json::from_str with ethabi's Deserialize for
/// Function: the parsed descriptor, or None for malformed JSON.  The
/// descriptor table's nine fixed texts are valid descriptors, so
/// parsing any of them succeeds.
#[verifier::external_body]
pub(crate) fn parse_function(json: &str) -> (r: Option<web3::ethabi::Function>)
    ensures
        json@ == crate::contracts::SYMBOL_ABI@ ==> r is Some,
        json@ == crate::contracts::DECIMALS_ABI@ ==> r is Some,
        json@ == crate::contracts::BALANCE_OF_ABI@ ==> r is Some,
        json@ == crate::contracts::TOKEN_ABI@ ==> r is Some,
        json@ == crate::contracts::TOTAL_ASSETS_ABI@ ==> r is Some,
        json@ == crate::contracts::WITHDRAW_LIMIT_PER_PERIOD_ABI@ ==> r is Some,
        json@ == crate::contracts::WITHDRAWAL_PERIODS_ABI@ ==> r is Some,
        json@ == crate::contracts::LAST_ROUND_ABI@ ==> r is Some,
        json@ == crate::contracts::ROUNDS_ABI@ ==> r is Some,
{
    serde_json::from_str(json).ok()
}

/// Builds a uint256 call argument from a 32-bit value.
///
/// Relies on U256::from and ethabi's Token::Uint: the value widened,
/// wrapped as a token.
#[verifier::external_body]
fn token_from_u32(value: u32) -> (r: web3::ethabi::Token) {
    web3::ethabi::Token::Uint(web3::ethabi::Uint::from(value))
}

/// Builds an address call argument from its 20 bytes.
///
/// Relies on H160::from_slice, which requires exactly 20 bytes, and
/// ethabi's Token::Address.
#[verifier::external_body]
fn token_from_address_bytes(bytes: &Vec<u8>) -> (r: web3::ethabi::Token)
    requires
        bytes@.len() == 20,
{
    web3::ethabi::Token::Address(web3::ethabi::Address::from_slice(bytes.as_slice()))
}

/// Encodes a call to the function with the given argument tokens.
///
/// Relies on ethabi::Function::encode_input: the four-byte selector
/// followed by the encoded arguments, or None when the tokens do not
/// match the declared input types.  ethabi's type check indexes a
/// tuple token against the declared tuple's members without a length
/// check, so a tuple token longer than the declared tuple would
/// panic; the one caller builds only uint and address tokens.
#[verifier::external_body]
fn encode_input(f: &web3::ethabi::Function, tokens: &Vec<web3::ethabi::Token>) -> (r: Option<
    Vec<u8>,
>) {
    f.encode_input(tokens.as_slice()).ok()
}

/// Decodes a call's raw output bytes against the function's declared
/// output types.
///
/// Relies on ethabi::Function::decode_output: the decoded tokens, or
/// None when the bytes do not have the expected shape.
#[verifier::external_body]
fn decode_output(f: &web3::ethabi::Function, data: &Vec<u8>) -> (r: Option<
    Vec<web3::ethabi::Token>,
>) {
    f.decode_output(data.as_slice()).ok()
}

/// Converts decoded tokens to plain values, variant by variant.
///
/// Relies on H160::as_bytes (an address is exactly 20 bytes) and on
/// U256's decimal Display (digits only, no sign, no leading zeros):
/// every address in the result is 20 bytes and every uint a canonical
/// decimal numeral, at the top level and one tuple level down.
#[verifier::external_body]
fn tokens_to_values(tokens: &Vec<web3::ethabi::Token>) -> (r: Vec<AbiValue>)
    ensures
        values_wf(r@),
{
    tokens.iter().map(|t| match t {
        web3::ethabi::Token::Address(a) => AbiValue::Address { bytes: a.as_bytes().to_vec() },
        web3::ethabi::Token::Uint(u) => AbiValue::Uint { dec: u.to_string() },
        web3::ethabi::Token::String(s) => AbiValue::Text { text: s.clone() },
        web3::ethabi::Token::Tuple(ts) => AbiValue::Tuple { items: tokens_to_values(ts) },
        _ => AbiValue::Other,
    }).collect()
}

/// Builds the argument tokens of a call.
fn args_to_tokens(args: &Vec<AbiArg>) -> (r: Vec<web3::ethabi::Token>)
    requires
        forall|i: int|
            0 <= i < args@.len() ==> (#[trigger] args@[i] is AddressBytes
                ==> args@[i]->bytes@.len() == 20),
{
    let mut r: Vec<web3::ethabi::Token> = Vec::new();
    let n = args.len();
    let mut i: usize = 0;
    while i < n
        invariant
            0 <= i <= n == args@.len(),
            forall|m: int|
                0 <= m < n ==> (#[trigger] args@[m] is AddressBytes
                    ==> args@[m]->bytes@.len() == 20),
        decreases n - i,
    {
        match &args[i] {
            AbiArg::U32 { value } => {
                r.push(token_from_u32(*value));
            },
            AbiArg::AddressBytes { bytes } => {
                r.push(token_from_address_bytes(bytes));
            },
        }
        i = i + 1;
    }
    r
}

/// Encodes a call with plain arguments.
pub fn encode_call(f: &web3::ethabi::Function, args: &Vec<AbiArg>) -> (r: Option<Vec<u8>>)
    requires
        forall|i: int|
            0 <= i < args@.len() ==> (#[trigger] args@[i] is AddressBytes
                ==> args@[i]->bytes@.len() == 20),
{
    let tokens = args_to_tokens(args);
    encode_input(f, &tokens)
}

/// Decodes a call's raw output into plain, well-formed values.
pub fn decode_call(f: &web3::ethabi::Function, data: &Vec<u8>) -> (r: Option<Vec<AbiValue>>)
    ensures
        r is Some ==> values_wf(r.unwrap()@),
{
    match decode_output(f, data) {
        Some(tokens) => Some(tokens_to_values(&tokens)),
        None => None,
    }
}

} // verus!
