use bridge_vaults_exporter::address::Address;
use bridge_vaults_exporter::state::{
    BridgeListener, TokenInfo, VaultFetch, VaultListener, withdrawal_period,
};

fn addr(hi: u32, lo: u128) -> Address {
    Address { hi, lo }
}

fn info(symbol: &str, decimals: u8) -> TokenInfo {
    TokenInfo { symbol: symbol.to_string(), decimals }
}

fn fetch(balance: &str) -> VaultFetch {
    VaultFetch {
        balance: balance.to_string(),
        total_assets: "2".to_string(),
        withdraw_limit: "3".to_string(),
        withdraw_total: "4".to_string(),
        withdraw_considered: "5".to_string(),
    }
}

#[test]
fn withdrawal_period_is_pure_integer_division() {
    assert_eq!(withdrawal_period(0), 0);
    assert_eq!(withdrawal_period(86399), 0);
    assert_eq!(withdrawal_period(86400), 1);
    assert_eq!(withdrawal_period(86401), 1);
    assert_eq!(withdrawal_period(172800), 2);
    assert_eq!(withdrawal_period(u32::MAX), u32::MAX / 86400);
}

#[test]
fn new_vault_listener_is_unrefreshed() {
    let v = VaultListener::new(addr(1, 1), addr(2, 2), info("TOK", 9));
    assert!(!v.listening);
    assert_eq!(v.state.updated_at, 0);
    assert_eq!(v.state.balance, "");
}

#[test]
fn successful_tick_replaces_every_field() {
    let mut v = VaultListener::new(addr(1, 1), addr(2, 2), info("TOK", 9));
    v.update(1000, Some(fetch("123456789012345678901234567890")));
    assert_eq!(v.state.updated_at, 1000);
    assert_eq!(v.state.balance, "123456789012345678901234567890");
    assert_eq!(v.state.total_assets, "2");
    assert_eq!(v.state.withdraw_limit, "3");
    assert_eq!(v.state.withdraw_total, "4");
    assert_eq!(v.state.withdraw_considered, "5");
}

#[test]
fn failed_tick_leaves_previous_state_visible() {
    let mut v = VaultListener::new(addr(1, 1), addr(2, 2), info("TOK", 9));
    v.update(1000, Some(fetch("7")));
    // A failed tick publishes nothing.
    v.update(2000, None);
    assert_eq!(v.state.updated_at, 1000);
    assert_eq!(v.state.balance, "7");
    // The next successful tick still updates.
    v.update(3000, Some(fetch("8")));
    assert_eq!(v.state.updated_at, 3000);
    assert_eq!(v.state.balance, "8");
}

#[test]
fn vault_start_latch_fires_once() {
    let mut v = VaultListener::new(addr(1, 1), addr(2, 2), info("TOK", 9));
    assert!(v.try_start());
    assert!(!v.try_start());
    assert!(!v.try_start());
    assert!(v.listening);
}

#[test]
fn bridge_start_latch_fires_once() {
    let mut b = BridgeListener::new(addr(3, 3), 5, 7);
    assert!(b.try_start());
    assert!(!b.try_start());
}

#[test]
fn relay_count_fetch_is_skipped_when_round_is_unchanged() {
    let mut b = BridgeListener::new(addr(3, 3), 5, 7);
    // Same round observed again: no relay-count fetch this tick.
    assert!(!b.observe_round(5));
    assert_eq!(b.current_round, 5);
    assert_eq!(b.relay_count, 7);
    // The round advances: the relay count must be fetched exactly once.
    assert!(b.observe_round(6));
    assert_eq!(b.current_round, 6);
    // The round is swapped before the fetch, so the count is stale
    // until the fetch succeeds.
    assert_eq!(b.relay_count, 7);
    b.set_relay_count(9);
    assert_eq!(b.relay_count, 9);
    // The new round, observed again, needs no further fetch.
    assert!(!b.observe_round(6));
}

#[test]
fn relay_count_failure_keeps_advanced_round() {
    let mut b = BridgeListener::new(addr(3, 3), 5, 7);
    assert!(b.observe_round(8));
    // The relay-count fetch failed: no set_relay_count call.
    assert_eq!(b.current_round, 8);
    assert_eq!(b.relay_count, 7);
    // The next tick sees the same round and skips the fetch.
    assert!(!b.observe_round(8));
}
