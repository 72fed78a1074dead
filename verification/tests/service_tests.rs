use bridge_vaults_exporter::address::Address;
use bridge_vaults_exporter::metrics::MetricEntry;
use bridge_vaults_exporter::registry::RegistryError;
use bridge_vaults_exporter::service::{ResolvedBridge, ResolvedNetwork, ResolvedVault, Service};
use bridge_vaults_exporter::state::{TokenInfo, VaultFetch};

fn addr(hi: u32, lo: u128) -> Address {
    Address { hi, lo }
}

fn vault(a: u128, token: u128, group: Option<&str>) -> ResolvedVault {
    ResolvedVault {
        address: addr(0, a),
        group: group.map(|g| g.to_string()),
        token: addr(0, token),
        token_info: TokenInfo { symbol: "TOK".to_string(), decimals: 18 },
    }
}

fn fetch(balance: &str) -> VaultFetch {
    VaultFetch {
        balance: balance.to_string(),
        total_assets: "200".to_string(),
        withdraw_limit: "300".to_string(),
        withdraw_total: "400".to_string(),
        withdraw_considered: "500".to_string(),
    }
}

fn count_by_name(entries: &[MetricEntry], name: &str) -> usize {
    entries.iter().filter(|e| e.name == name).count()
}

#[test]
fn duplicate_vault_across_networks_aborts_startup() {
    let networks = vec![
        ResolvedNetwork { chain_id: 1, bridge: None, vaults: vec![vault(10, 20, None)] },
        ResolvedNetwork { chain_id: 1, bridge: None, vaults: vec![vault(10, 21, None)] },
    ];
    assert!(matches!(Service::new(networks), Err(RegistryError::DuplicateVault)));
}

#[test]
fn second_bridge_anywhere_aborts_startup() {
    let networks = vec![
        ResolvedNetwork {
            chain_id: 1,
            bridge: Some(ResolvedBridge { bridge_proxy: addr(0, 1), last_round: 1, relay_count: 2 }),
            vaults: vec![],
        },
        ResolvedNetwork {
            chain_id: 2,
            bridge: Some(ResolvedBridge { bridge_proxy: addr(0, 2), last_round: 3, relay_count: 4 }),
            vaults: vec![],
        },
    ];
    assert!(matches!(Service::new(networks), Err(RegistryError::DuplicateBridge)));
}

#[test]
fn conflicting_group_aborts_startup() {
    let networks = vec![ResolvedNetwork {
        chain_id: 1,
        bridge: None,
        vaults: vec![vault(10, 20, Some("usd")), vault(11, 20, Some("eur"))],
    }];
    assert!(matches!(Service::new(networks), Err(RegistryError::InconsistentGroup)));
}

#[test]
fn shared_token_with_equal_group_is_accepted() {
    let networks = vec![ResolvedNetwork {
        chain_id: 1,
        bridge: None,
        vaults: vec![vault(10, 20, Some("usd")), vault(11, 20, Some("usd"))],
    }];
    let service = Service::new(networks).expect("startup");
    // One token, seen under two vaults: one catalogue entry.
    assert_eq!(count_by_name(&service.token_decimals, "token_decimals"), 1);
    let entry = &service.token_decimals[0];
    assert!(entry.labels.iter().any(|l| l.key == "token_group" && l.value == "usd"));
}

#[test]
fn unrefreshed_vaults_render_no_entries() {
    let networks = vec![ResolvedNetwork { chain_id: 1, bridge: None, vaults: vec![vault(10, 20, None)] }];
    let service = Service::new(networks).expect("startup");
    let entries = service.metrics();
    // Only the catalogue entry is present before the first tick.
    assert_eq!(entries.len(), 1);
    assert_eq!(entries[0].name, "token_decimals");
    assert_eq!(count_by_name(&entries, "balance"), 0);
    assert_eq!(count_by_name(&entries, "updated_at"), 0);
}

#[test]
fn big_balance_renders_byte_for_byte() {
    let networks = vec![ResolvedNetwork { chain_id: 1, bridge: None, vaults: vec![vault(10, 20, None)] }];
    let mut service = Service::new(networks).expect("startup");
    let big = "123456789012345678901234567890";
    service.listeners[0].vaults[0].update(1_700_000_000, Some(fetch(big)));
    let entries = service.metrics();
    let balance = entries.iter().find(|e| e.name == "balance").expect("balance entry");
    assert_eq!(balance.value, big);
    let updated = entries.iter().find(|e| e.name == "updated_at").expect("updated_at entry");
    assert_eq!(updated.value, "1700000000");
    let period = entries
        .iter()
        .find(|e| e.name == "withdrawal_period_total")
        .expect("period entry");
    assert!(period
        .labels
        .iter()
        .any(|l| l.key == "withdrawal_period" && l.value == (1_700_000_000u32 / 86400).to_string()));
}

#[test]
fn vault_labels_carry_full_hex_addresses() {
    let networks = vec![ResolvedNetwork { chain_id: 7, bridge: None, vaults: vec![vault(10, 20, None)] }];
    let mut service = Service::new(networks).expect("startup");
    service.listeners[0].vaults[0].update(100, Some(fetch("1")));
    let entries = service.metrics();
    let balance = entries.iter().find(|e| e.name == "balance").unwrap();
    assert!(balance
        .labels
        .iter()
        .any(|l| l.key == "vault" && l.value == "0x000000000000000000000000000000000000000a"));
    assert!(balance
        .labels
        .iter()
        .any(|l| l.key == "token" && l.value == "0x0000000000000000000000000000000000000014"));
    assert!(balance.labels.iter().any(|l| l.key == "chain_id" && l.value == "7"));
}

#[test]
fn bridge_entries_render_round_and_count() {
    let networks = vec![ResolvedNetwork {
        chain_id: 1,
        bridge: Some(ResolvedBridge { bridge_proxy: addr(0, 3), last_round: 41, relay_count: 17 }),
        vaults: vec![],
    }];
    let service = Service::new(networks).expect("startup");
    let entries = service.metrics();
    let round = entries.iter().find(|e| e.name == "relay_round").expect("round entry");
    assert_eq!(round.value, "41");
    let count = entries.iter().find(|e| e.name == "relay_count").expect("count entry");
    assert_eq!(count.value, "17");
    assert!(round
        .labels
        .iter()
        .any(|l| l.key == "bridge_proxy" && l.value == "0x0000000000000000000000000000000000000003"));
}

#[test]
fn end_to_end_two_networks_one_round() {
    let networks = vec![
        ResolvedNetwork { chain_id: 1, bridge: None, vaults: vec![vault(10, 20, None)] },
        ResolvedNetwork { chain_id: 2, bridge: None, vaults: vec![vault(30, 40, None)] },
    ];
    let mut service = Service::new(networks).expect("startup");
    let started = service.start_listening();
    assert_eq!(started, 2);
    service.listeners[0].vaults[0].update(1000, Some(fetch("1")));
    service.listeners[1].vaults[0].update(1001, Some(fetch("2")));
    let entries = service.metrics();
    // Two vaults at five value entries plus one timestamp entry each,
    // plus two catalogue entries, and no bridge entries.
    assert_eq!(entries.len(), 2 * (5 + 1) + 2);
    assert_eq!(count_by_name(&entries, "token_decimals"), 2);
    assert_eq!(count_by_name(&entries, "balance"), 2);
    assert_eq!(count_by_name(&entries, "total_assets"), 2);
    assert_eq!(count_by_name(&entries, "withdraw_limit_per_period"), 2);
    assert_eq!(count_by_name(&entries, "withdrawal_period_total"), 2);
    assert_eq!(count_by_name(&entries, "withdrawal_period_considered"), 2);
    assert_eq!(count_by_name(&entries, "updated_at"), 2);
    assert_eq!(count_by_name(&entries, "relay_round"), 0);
    assert_eq!(count_by_name(&entries, "relay_count"), 0);
}

#[test]
fn starting_twice_starts_each_refresher_once() {
    let networks = vec![
        ResolvedNetwork {
            chain_id: 1,
            bridge: Some(ResolvedBridge { bridge_proxy: addr(0, 3), last_round: 1, relay_count: 1 }),
            vaults: vec![vault(10, 20, None), vault(11, 21, None)],
        },
    ];
    let mut service = Service::new(networks).expect("startup");
    // One bridge and two vaults: three refreshers start.
    assert_eq!(service.start_listening(), 3);
    // A second concurrent-style call schedules nothing further.
    assert_eq!(service.start_listening(), 0);
}
