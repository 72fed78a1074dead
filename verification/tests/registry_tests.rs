use bridge_vaults_exporter::address::Address;
use bridge_vaults_exporter::registry::{InitializationContext, RegistryError};

fn addr(hi: u32, lo: u128) -> Address {
    Address { hi, lo }
}

#[test]
fn register_vault_twice_fails_exactly_the_second_time() {
    let mut ctx = InitializationContext::new();
    assert!(ctx.add_vault(1, addr(1, 2)).is_ok());
    assert_eq!(ctx.add_vault(1, addr(1, 2)), Err(RegistryError::DuplicateVault));
    // A third identical attempt still fails.
    assert_eq!(ctx.add_vault(1, addr(1, 2)), Err(RegistryError::DuplicateVault));
}

#[test]
fn same_vault_address_on_another_network_is_fine() {
    let mut ctx = InitializationContext::new();
    assert!(ctx.add_vault(1, addr(1, 2)).is_ok());
    assert!(ctx.add_vault(2, addr(1, 2)).is_ok());
    assert!(ctx.add_vault(1, addr(1, 3)).is_ok());
}

#[test]
fn token_group_repeats_are_idempotent() {
    let mut ctx = InitializationContext::new();
    assert!(ctx.add_token_group(5, addr(9, 9), "usd".to_string()).is_ok());
    assert!(ctx.add_token_group(5, addr(9, 9), "usd".to_string()).is_ok());
    assert!(ctx.add_token_group(5, addr(9, 9), "usd".to_string()).is_ok());
    assert_eq!(ctx.group_lookup(5, addr(9, 9)), Some("usd".to_string()));
}

#[test]
fn conflicting_token_group_fails() {
    let mut ctx = InitializationContext::new();
    assert!(ctx.add_token_group(5, addr(9, 9), "usd".to_string()).is_ok());
    assert_eq!(
        ctx.add_token_group(5, addr(9, 9), "eur".to_string()),
        Err(RegistryError::InconsistentGroup)
    );
    // The recorded label is unchanged by the refused attempt.
    assert_eq!(ctx.group_lookup(5, addr(9, 9)), Some("usd".to_string()));
}

#[test]
fn same_token_on_another_network_may_differ() {
    let mut ctx = InitializationContext::new();
    assert!(ctx.add_token_group(5, addr(9, 9), "usd".to_string()).is_ok());
    assert!(ctx.add_token_group(6, addr(9, 9), "eur".to_string()).is_ok());
}

#[test]
fn second_bridge_proxy_is_refused() {
    let mut ctx = InitializationContext::new();
    assert!(ctx.set_has_bridge_proxy().is_ok());
    assert_eq!(ctx.set_has_bridge_proxy(), Err(RegistryError::DuplicateBridge));
}

#[test]
fn group_lookup_misses_unknown_tokens() {
    let ctx = InitializationContext::new();
    assert_eq!(ctx.group_lookup(1, addr(0, 0)), None);
}
