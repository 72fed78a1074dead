//! Per-vault and per-bridge refresh state.
//!
//! Each refresher owns one mutable state value that is replaced
//! wholesale on a successful tick and left untouched on a failed one.
//! The single-start latch and the round-swap decision are modelled
//! here as plain transitions; the timer loop and the RPC round trips
//! that drive them live outside the crate and feed plain values in.

use vstd::prelude::*;
use crate::address::Address;

verus! {

/// Token metadata, resolved once per token address and immutable for
/// the process lifetime.
pub struct TokenInfo {
    pub symbol: String,
    pub decimals: u8,
}

/// The mathematical image of token metadata.
#[verifier::ext_equal]
pub struct TokenInfoV {
    pub symbol: Seq<char>,
    pub decimals: u8,
}

impl View for TokenInfo {
    type V = TokenInfoV;

    open spec fn view(&self) -> TokenInfoV {
        TokenInfoV { symbol: self.symbol@, decimals: self.decimals }
    }
}

/// One vault's latest successfully fetched values.  `updated_at == 0`
/// marks a vault that has never been refreshed; such a vault is kept
/// out of rendered output.
pub struct VaultState {
    pub updated_at: u32,
    pub balance: String,
    pub total_assets: String,
    pub withdraw_limit: String,
    pub withdraw_total: String,
    pub withdraw_considered: String,
}

/// The mathematical image of a vault state.
#[verifier::ext_equal]
pub struct VaultStateV {
    pub updated_at: u32,
    pub balance: Seq<char>,
    pub total_assets: Seq<char>,
    pub withdraw_limit: Seq<char>,
    pub withdraw_total: Seq<char>,
    pub withdraw_considered: Seq<char>,
}

impl View for VaultState {
    type V = VaultStateV;

    open spec fn view(&self) -> VaultStateV {
        VaultStateV {
            updated_at: self.updated_at,
            balance: self.balance@,
            total_assets: self.total_assets@,
            withdraw_limit: self.withdraw_limit@,
            withdraw_total: self.withdraw_total@,
            withdraw_considered: self.withdraw_considered@,
        }
    }
}

/// The state of a vault that was never refreshed.
pub open spec fn initial_vault_state() -> VaultStateV {
    VaultStateV {
        updated_at: 0,
        balance: Seq::empty(),
        total_assets: Seq::empty(),
        withdraw_limit: Seq::empty(),
        withdraw_total: Seq::empty(),
        withdraw_considered: Seq::empty(),
    }
}

impl Default for VaultState {
    /// The never-refreshed state: `updated_at` zero, all values empty.
    fn default() -> (r: VaultState)
        ensures
            r@ == initial_vault_state(),
    {
        let r = VaultState {
            updated_at: 0,
            balance: String::new(),
            total_assets: String::new(),
            withdraw_limit: String::new(),
            withdraw_total: String::new(),
            withdraw_considered: String::new(),
        };
        proof {
            assert(r@ =~= initial_vault_state());
        }
        r
    }
}

/// The values fetched by one successful vault tick, each a decimal
/// digit string exactly as decoded.
pub struct VaultFetch {
    pub balance: String,
    pub total_assets: String,
    pub withdraw_limit: String,
    pub withdraw_total: String,
    pub withdraw_considered: String,
}

/// The mathematical image of one tick's fetched values.
#[verifier::ext_equal]
pub struct VaultFetchV {
    pub balance: Seq<char>,
    pub total_assets: Seq<char>,
    pub withdraw_limit: Seq<char>,
    pub withdraw_total: Seq<char>,
    pub withdraw_considered: Seq<char>,
}

impl View for VaultFetch {
    type V = VaultFetchV;

    open spec fn view(&self) -> VaultFetchV {
        VaultFetchV {
            balance: self.balance@,
            total_assets: self.total_assets@,
            withdraw_limit: self.withdraw_limit@,
            withdraw_total: self.withdraw_total@,
            withdraw_considered: self.withdraw_considered@,
        }
    }
}

/// The state a vault tick publishes: the fetched values under the
/// tick's timestamp.
pub open spec fn published_state(now_seconds: u32, f: VaultFetchV) -> VaultStateV {
    VaultStateV {
        updated_at: now_seconds,
        balance: f.balance,
        total_assets: f.total_assets,
        withdraw_limit: f.withdraw_limit,
        withdraw_total: f.withdraw_total,
        withdraw_considered: f.withdraw_considered,
    }
}

/// One vault's refresher: its immutable identity and its latest state.
pub struct VaultListener {
    pub listening: bool,
    pub vault: Address,
    pub token: Address,
    pub token_info: TokenInfo,
    pub state: VaultState,
}

impl VaultListener {
    /// A fresh refresher for one vault: not yet started, never refreshed.
    pub fn new(vault: Address, token: Address, token_info: TokenInfo) -> (r: VaultListener)
        ensures
            !r.listening,
            r.vault == vault,
            r.token == token,
            r.token_info@ == token_info@,
            r.state@ == initial_vault_state(),
    {
        VaultListener {
            listening: false,
            vault,
            token,
            token_info,
            state: Default::default(),
        }
    }

    /// The exactly-once start latch: the first call starts the
    /// refresher and reports it; any later call changes nothing and
    /// reports that nothing was started.
    pub fn try_start(&mut self) -> (started: bool)
        ensures
            started == !old(self).listening,
            final(self).listening,
            final(self).vault == old(self).vault,
            final(self).token == old(self).token,
            final(self).token_info@ == old(self).token_info@,
            final(self).state@ == old(self).state@,
    {
        let was = self.listening;
        self.listening = true;
        !was
    }

    /// Applies the outcome of one tick.  A successful fetch replaces
    /// the whole state atomically under the tick's timestamp; a failed
    /// tick leaves the previous state visible, field for field.
    pub fn update(&mut self, now_seconds: u32, fetched: Option<VaultFetch>)
        ensures
            fetched is Some ==> final(self).state@ == published_state(
                now_seconds,
                fetched.unwrap()@,
            ),
            fetched is None ==> final(self).state@ == old(self).state@,
            final(self).listening == old(self).listening,
            final(self).vault == old(self).vault,
            final(self).token == old(self).token,
            final(self).token_info@ == old(self).token_info@,
    {
        match fetched {
            Some(f) => {
                self.state = VaultState {
                    updated_at: now_seconds,
                    balance: f.balance,
                    total_assets: f.total_assets,
                    withdraw_limit: f.withdraw_limit,
                    withdraw_total: f.withdraw_total,
                    withdraw_considered: f.withdraw_considered,
                };
            },
            None => {},
        }
    }
}

/// One network's bridge refresher: the current signing round and the
/// relay count last fetched for it.
pub struct BridgeListener {
    pub listening: bool,
    pub bridge_proxy: Address,
    pub current_round: u32,
    pub relay_count: u32,
}

impl BridgeListener {
    /// A bridge refresher primed with the round and relay count read
    /// during startup.
    pub fn new(bridge_proxy: Address, last_round: u32, relay_count: u32) -> (r: BridgeListener)
        ensures
            !r.listening,
            r.bridge_proxy == bridge_proxy,
            r.current_round == last_round,
            r.relay_count == relay_count,
    {
        BridgeListener { listening: false, bridge_proxy, current_round: last_round, relay_count }
    }

    /// The exactly-once start latch, as for vaults.
    pub fn try_start(&mut self) -> (started: bool)
        ensures
            started == !old(self).listening,
            final(self).listening,
            final(self).bridge_proxy == old(self).bridge_proxy,
            final(self).current_round == old(self).current_round,
            final(self).relay_count == old(self).relay_count,
    {
        let was = self.listening;
        self.listening = true;
        !was
    }

    /// Records the round read by one tick and decides whether the
    /// relay count must be fetched: exactly when the round changed.
    /// The round is swapped before any relay-count fetch is attempted,
    /// so a failed fetch keeps the advanced round with the stale count.
    pub fn observe_round(&mut self, new_round: u32) -> (fetch_relay: bool)
        ensures
            fetch_relay == (old(self).current_round != new_round),
            final(self).current_round == new_round,
            final(self).relay_count == old(self).relay_count,
            final(self).listening == old(self).listening,
            final(self).bridge_proxy == old(self).bridge_proxy,
    {
        let previous = self.current_round;
        self.current_round = new_round;
        previous != new_round
    }

    /// Publishes the relay count fetched for the current round.
    pub fn set_relay_count(&mut self, relay_count: u32)
        ensures
            final(self).relay_count == relay_count,
            final(self).current_round == old(self).current_round,
            final(self).listening == old(self).listening,
            final(self).bridge_proxy == old(self).bridge_proxy,
    {
        self.relay_count = relay_count;
    }
}

/// Computes the withdrawal-period bucket of a timestamp: pure integer
/// division of Unix seconds into 86400-second days.
pub fn withdrawal_period(now_seconds: u32) -> (r: u32)
    ensures
        r == now_seconds / 86400,
{
    now_seconds / 86400
}

} // verus!
