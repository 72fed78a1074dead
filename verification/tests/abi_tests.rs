use bridge_vaults_exporter::abi::AbiValue;
use bridge_vaults_exporter::address::Address;
use bridge_vaults_exporter::api::{
    ListenerError, UintGetter, parse_last_round, parse_symbol, parse_uint_value,
    parse_vault_token, parse_withdrawal_period_stats,
};
use bridge_vaults_exporter::contracts::ContractTable;
use web3::ethabi::{Token, Uint};

fn table() -> ContractTable {
    ContractTable::new().expect("fixed descriptors parse")
}

#[test]
fn contract_table_parses_every_descriptor() {
    assert!(ContractTable::new().is_some());
}

#[test]
fn encode_balance_of_uses_the_selector_and_pads_the_address() {
    let t = table();
    let vault = Address { hi: 0, lo: 0x14 };
    let data = t.encode_balance_of(&vault).expect("encodes");
    // keccak("balanceOf(address)") starts with 70a08231.
    assert_eq!(&data[0..4], &[0x70, 0xa0, 0x82, 0x31]);
    assert_eq!(data.len(), 4 + 32);
    // The address occupies the low 20 bytes of the padded word.
    assert_eq!(data[4 + 31], 0x14);
}

#[test]
fn encode_symbol_and_decimals_use_their_selectors() {
    let t = table();
    let symbol = t.encode_symbol().expect("encodes");
    assert_eq!(&symbol[0..4], &[0x95, 0xd8, 0x9b, 0x41]);
    let decimals = t.encode_decimals().expect("encodes");
    assert_eq!(&decimals[0..4], &[0x31, 0x3c, 0xe5, 0x67]);
}

#[test]
fn decode_uint_value_returns_the_exact_decimal_string() {
    let t = table();
    let big = "123456789012345678901234567890";
    let data = web3::ethabi::encode(&[Token::Uint(Uint::from_dec_str(big).unwrap())]);
    let r = t.decode_uint_value(UintGetter::BalanceOf, &data);
    assert_eq!(r, Ok(big.to_string()));
}

#[test]
fn decode_last_round_reads_a_small_uint() {
    let t = table();
    let data = web3::ethabi::encode(&[Token::Uint(Uint::from(42u32))]);
    assert_eq!(t.decode_last_round(&data), Ok(42));
}

#[test]
fn decode_last_round_rejects_oversized_rounds() {
    let t = table();
    let data = web3::ethabi::encode(&[Token::Uint(Uint::from(1u128 << 40))]);
    assert_eq!(t.decode_last_round(&data), Err(ListenerError::InvalidOutput));
}

#[test]
fn decode_relay_count_reads_the_third_output() {
    let t = table();
    let data = web3::ethabi::encode(&[
        Token::Uint(Uint::from(1u32)),
        Token::Uint(Uint::from(2u32)),
        Token::Uint(Uint::from(99u32)),
    ]);
    assert_eq!(t.decode_relay_count(&data), Ok(99));
}

#[test]
fn decode_symbol_reads_a_string() {
    let t = table();
    let data = web3::ethabi::encode(&[Token::String("USDC".to_string())]);
    assert_eq!(t.decode_symbol(&data), Ok("USDC".to_string()));
}

#[test]
fn decode_decimals_rejects_values_over_255() {
    let t = table();
    let ok = web3::ethabi::encode(&[Token::Uint(Uint::from(18u32))]);
    assert_eq!(t.decode_decimals(&ok), Ok(18));
    let too_big = web3::ethabi::encode(&[Token::Uint(Uint::from(300u32))]);
    assert_eq!(t.decode_decimals(&too_big), Err(ListenerError::InvalidOutput));
}

#[test]
fn decode_vault_token_reads_an_address() {
    let t = table();
    let h = web3::types::H160::from_low_u64_be(0xabcd);
    let data = web3::ethabi::encode(&[Token::Address(h)]);
    let got = t.decode_vault_token(&data).expect("address decodes");
    assert_eq!(got, Address { hi: 0, lo: 0xabcd });
}

#[test]
fn decode_withdrawal_period_stats_reads_the_tuple() {
    let t = table();
    let data = web3::ethabi::encode(&[Token::Tuple(vec![
        Token::Uint(Uint::from_dec_str("77777777777777777777").unwrap()),
        Token::Uint(Uint::from(55u32)),
    ])]);
    let (total, considered) = t.decode_withdrawal_period_stats(&data).expect("tuple decodes");
    assert_eq!(total, "77777777777777777777");
    assert_eq!(considered, "55");
}

#[test]
fn truncated_output_is_a_transient_decode_error() {
    let t = table();
    let data = vec![0u8; 7];
    assert_eq!(t.decode_last_round(&data), Err(ListenerError::InvalidOutput));
    assert_eq!(
        t.decode_uint_value(UintGetter::TotalAssets, &data),
        Err(ListenerError::InvalidOutput)
    );
}

#[test]
fn parse_functions_check_shapes_exactly() {
    let uint = |s: &str| AbiValue::Uint { dec: s.to_string() };
    assert_eq!(parse_last_round(&vec![uint("7")]), Ok(7));
    assert_eq!(parse_last_round(&vec![]), Err(ListenerError::InvalidOutput));
    assert_eq!(
        parse_last_round(&vec![AbiValue::Text { text: "7".to_string() }]),
        Err(ListenerError::InvalidOutput)
    );
    assert_eq!(
        parse_symbol(&vec![AbiValue::Text { text: "T".to_string() }]),
        Ok("T".to_string())
    );
    assert_eq!(
        parse_uint_value(&vec![uint("123456789012345678901234567890")]),
        Ok("123456789012345678901234567890".to_string())
    );
    assert_eq!(
        parse_vault_token(&vec![AbiValue::Address { bytes: vec![0u8; 19] }]),
        Err(ListenerError::InvalidOutput)
    );
    let mut bytes = vec![0u8; 20];
    bytes[19] = 1;
    assert_eq!(
        parse_vault_token(&vec![AbiValue::Address { bytes }]),
        Ok(Address { hi: 0, lo: 1 })
    );
    assert_eq!(
        parse_withdrawal_period_stats(&vec![AbiValue::Tuple {
            items: vec![uint("4"), uint("5")],
        }]),
        Ok(("4".to_string(), "5".to_string()))
    );
    assert_eq!(
        parse_withdrawal_period_stats(&vec![AbiValue::Tuple { items: vec![uint("4")] }]),
        Err(ListenerError::InvalidOutput)
    );
}
