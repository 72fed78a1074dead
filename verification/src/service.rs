//! Network listeners and startup orchestration.
//!
//! A listener owns one network's chain identity, its vault refreshers
//! and its optional bridge refresher.  Creating a listener runs every
//! registration for that network through the admission registry in a
//! fixed order: the bridge first, then every vault key, then every
//! token-group declaration; the first refusal aborts the setup.

use vstd::prelude::*;
use crate::address::Address;
use crate::registry::{
    GroupEntryV, InitializationContext, RegistryError, RegistryV, VaultKey, group_admissible,
    group_of,
};
use crate::state::{BridgeListener, TokenInfo, TokenInfoV, VaultListener, VaultStateV, initial_vault_state};
use crate::metrics::{EntryV, MetricEntry, entries_view};
use crate::render::{catalogue, token_pairs};

verus! {

/// A network's bridge data as resolved during startup.
#[derive(Clone, Copy, PartialEq, Eq, Structural, Debug)]
pub struct ResolvedBridge {
    pub bridge_proxy: Address,
    pub last_round: u32,
    pub relay_count: u32,
}

/// One vault of a network with its token metadata already resolved.
pub struct ResolvedVault {
    pub address: Address,
    pub group: Option<String>,
    pub token: Address,
    pub token_info: TokenInfo,
}

/// The mathematical image of a resolved vault.
#[verifier::ext_equal]
pub struct ResolvedVaultV {
    pub address: Address,
    pub group: Option<Seq<char>>,
    pub token: Address,
    pub token_info: TokenInfoV,
}

impl View for ResolvedVault {
    type V = ResolvedVaultV;

    open spec fn view(&self) -> ResolvedVaultV {
        ResolvedVaultV {
            address: self.address,
            group: match self.group {
                Option::Some(g) => Option::Some(g@),
                Option::None => Option::None,
            },
            token: self.token,
            token_info: self.token_info@,
        }
    }
}

/// The images of a list of resolved vaults.
pub open spec fn resolved_views(s: Seq<ResolvedVault>) -> Seq<ResolvedVaultV> {
    s.map_values(|v: ResolvedVault| v@)
}

/// One network as handed to the service: chain identity, optional
/// bridge, resolved vaults.
pub struct ResolvedNetwork {
    pub chain_id: u32,
    pub bridge: Option<ResolvedBridge>,
    pub vaults: Vec<ResolvedVault>,
}

/// The mathematical image of a resolved network.
#[verifier::ext_equal]
pub struct ResolvedNetworkV {
    pub chain_id: u32,
    pub bridge: Option<ResolvedBridge>,
    pub vaults: Seq<ResolvedVaultV>,
}

impl View for ResolvedNetwork {
    type V = ResolvedNetworkV;

    open spec fn view(&self) -> ResolvedNetworkV {
        ResolvedNetworkV {
            chain_id: self.chain_id,
            bridge: self.bridge,
            vaults: resolved_views(self.vaults@),
        }
    }
}

/// The mathematical image of a vault refresher.
#[verifier::ext_equal]
pub struct VaultListenerV {
    pub listening: bool,
    pub vault: Address,
    pub token: Address,
    pub token_info: TokenInfoV,
    pub state: VaultStateV,
}

impl View for VaultListener {
    type V = VaultListenerV;

    open spec fn view(&self) -> VaultListenerV {
        VaultListenerV {
            listening: self.listening,
            vault: self.vault,
            token: self.token,
            token_info: self.token_info@,
            state: self.state@,
        }
    }
}

/// The images of a list of vault refreshers.
pub open spec fn vault_listener_views(s: Seq<VaultListener>) -> Seq<VaultListenerV> {
    s.map_values(|v: VaultListener| v@)
}

/// The images of a list of listeners.
pub open spec fn listener_views(s: Seq<Listener>) -> Seq<ListenerV> {
    s.map_values(|l: Listener| l@)
}

/// One network's listener: chain identity, optional bridge refresher,
/// vault refreshers.
pub struct Listener {
    pub chain_id: u32,
    pub bridge_listener: Option<BridgeListener>,
    pub vaults: Vec<VaultListener>,
}

/// The mathematical image of a listener.
#[verifier::ext_equal]
pub struct ListenerV {
    pub chain_id: u32,
    pub bridge_listener: Option<BridgeListener>,
    pub vaults: Seq<VaultListenerV>,
}

impl View for Listener {
    type V = ListenerV;

    open spec fn view(&self) -> ListenerV {
        ListenerV {
            chain_id: self.chain_id,
            bridge_listener: self.bridge_listener,
            vaults: vault_listener_views(self.vaults@),
        }
    }
}

/// The registry key of one resolved vault.
pub open spec fn vault_key_of(chain_id: u32, v: ResolvedVaultV) -> VaultKey {
    VaultKey { chain_id, address: v.address }
}

/// The registry keys of a network's vaults, in configuration order.
pub open spec fn vault_keys(chain_id: u32, vs: Seq<ResolvedVaultV>) -> Seq<VaultKey> {
    vs.map_values(|v: ResolvedVaultV| vault_key_of(chain_id, v))
}

/// Whether registering the keys in order, against the given registered
/// set, succeeds throughout.
pub open spec fn add_vaults_ok(vaults: Seq<VaultKey>, ks: Seq<VaultKey>) -> bool
    decreases ks.len(),
{
    if ks.len() == 0 {
        true
    } else if vaults.contains(ks[0]) {
        false
    } else {
        add_vaults_ok(vaults.push(ks[0]), ks.subrange(1, ks.len() as int))
    }
}

/// The registered set after attempting the keys in order, stopping at
/// the first duplicate.
pub open spec fn add_vaults_out(vaults: Seq<VaultKey>, ks: Seq<VaultKey>) -> Seq<VaultKey>
    decreases ks.len(),
{
    if ks.len() == 0 {
        vaults
    } else if vaults.contains(ks[0]) {
        vaults
    } else {
        add_vaults_out(vaults.push(ks[0]), ks.subrange(1, ks.len() as int))
    }
}

/// One admissible group declaration's effect on the recorded
/// declarations: an unseen token is recorded, a seen one is left.
pub open spec fn group_step(
    gs: Seq<GroupEntryV>,
    chain_id: u32,
    token: Address,
    g: Seq<char>,
) -> Seq<GroupEntryV> {
    if group_of(gs, chain_id, token) is None {
        gs.push(GroupEntryV { chain_id, token, group: g })
    } else {
        gs
    }
}

/// Whether declaring each vault's group label in order, skipping
/// vaults without one, succeeds throughout.
pub open spec fn add_groups_ok(gs: Seq<GroupEntryV>, chain_id: u32, vs: Seq<ResolvedVaultV>) -> bool
    decreases vs.len(),
{
    if vs.len() == 0 {
        true
    } else {
        match vs[0].group {
            Option::None => add_groups_ok(gs, chain_id, vs.subrange(1, vs.len() as int)),
            Option::Some(g) => {
                if group_admissible(gs, chain_id, vs[0].token, g) {
                    add_groups_ok(
                        group_step(gs, chain_id, vs[0].token, g),
                        chain_id,
                        vs.subrange(1, vs.len() as int),
                    )
                } else {
                    false
                }
            },
        }
    }
}

/// The recorded declarations after attempting each vault's group label
/// in order, stopping at the first inconsistency.
pub open spec fn add_groups_out(
    gs: Seq<GroupEntryV>,
    chain_id: u32,
    vs: Seq<ResolvedVaultV>,
) -> Seq<GroupEntryV>
    decreases vs.len(),
{
    if vs.len() == 0 {
        gs
    } else {
        match vs[0].group {
            Option::None => add_groups_out(gs, chain_id, vs.subrange(1, vs.len() as int)),
            Option::Some(g) => {
                if group_admissible(gs, chain_id, vs[0].token, g) {
                    add_groups_out(
                        group_step(gs, chain_id, vs[0].token, g),
                        chain_id,
                        vs.subrange(1, vs.len() as int),
                    )
                } else {
                    gs
                }
            },
        }
    }
}

/// Whether the network's bridge declaration is admissible.
pub open spec fn bridge_admissible(r: RegistryV, bridge: Option<ResolvedBridge>) -> bool {
    bridge is Some ==> !r.has_bridge
}

/// The registry after the bridge declaration.
pub open spec fn post_bridge(r: RegistryV, bridge: Option<ResolvedBridge>) -> RegistryV {
    if bridge is Some {
        RegistryV { has_bridge: true, ..r }
    } else {
        r
    }
}

/// The error, if any, that setting up this network against the given
/// registry raises: the bridge check first, then vault uniqueness,
/// then group consistency.
pub open spec fn network_setup_error(
    r: RegistryV,
    chain_id: u32,
    bridge: Option<ResolvedBridge>,
    vs: Seq<ResolvedVaultV>,
) -> Option<RegistryError> {
    if !bridge_admissible(r, bridge) {
        Some(RegistryError::DuplicateBridge)
    } else if !add_vaults_ok(r.vaults, vault_keys(chain_id, vs)) {
        Some(RegistryError::DuplicateVault)
    } else if !add_groups_ok(r.groups, chain_id, vs) {
        Some(RegistryError::InconsistentGroup)
    } else {
        None
    }
}

/// The registry state after attempting to set up this network,
/// whether or not an error stopped the attempt.
pub open spec fn network_setup_registry(
    r: RegistryV,
    chain_id: u32,
    bridge: Option<ResolvedBridge>,
    vs: Seq<ResolvedVaultV>,
) -> RegistryV {
    if !bridge_admissible(r, bridge) {
        RegistryV { has_bridge: true, ..r }
    } else {
        let r1 = post_bridge(r, bridge);
        let ks = vault_keys(chain_id, vs);
        if !add_vaults_ok(r1.vaults, ks) {
            RegistryV { vaults: add_vaults_out(r1.vaults, ks), ..r1 }
        } else {
            RegistryV {
                vaults: add_vaults_out(r1.vaults, ks),
                groups: add_groups_out(r1.groups, chain_id, vs),
                ..r1
            }
        }
    }
}

/// A freshly created vault refresher's image.
pub open spec fn fresh_vault_listener(v: ResolvedVaultV) -> VaultListenerV {
    VaultListenerV {
        listening: false,
        vault: v.address,
        token: v.token,
        token_info: v.token_info,
        state: initial_vault_state(),
    }
}

/// The images of the refreshers created for a list of resolved vaults.
pub open spec fn fresh_vault_listeners(vs: Seq<ResolvedVaultV>) -> Seq<VaultListenerV> {
    vs.map_values(|v: ResolvedVaultV| fresh_vault_listener(v))
}

/// A freshly created listener's image.
pub open spec fn fresh_listener(
    chain_id: u32,
    bridge: Option<ResolvedBridge>,
    vs: Seq<ResolvedVaultV>,
) -> ListenerV {
    ListenerV {
        chain_id,
        bridge_listener: match bridge {
            Option::Some(b) => Option::Some(
                BridgeListener {
                    listening: false,
                    bridge_proxy: b.bridge_proxy,
                    current_round: b.last_round,
                    relay_count: b.relay_count,
                },
            ),
            Option::None => Option::None,
        },
        vaults: fresh_vault_listeners(vs),
    }
}

impl TokenInfo {
    /// An owned copy of the metadata.
    pub fn duplicate(&self) -> (r: TokenInfo)
        ensures
            r@ == self@,
    {
        TokenInfo { symbol: self.symbol.clone(), decimals: self.decimals }
    }
}

impl Listener {
    /// Sets up one network's listener: admits its bridge, registers
    /// every vault key, declares every token group, and creates the
    /// refreshers, all in configuration order; the first refusal
    /// aborts with that refusal's error and leaves the registry as the
    /// attempts so far made it.
    #[verifier::loop_isolation(false)]
    pub fn new(
        ctx: &mut InitializationContext,
        chain_id: u32,
        bridge: Option<ResolvedBridge>,
        vaults: Vec<ResolvedVault>,
    ) -> (r: Result<Listener, RegistryError>)
        ensures
            final(ctx)@ == network_setup_registry(
                old(ctx)@,
                chain_id,
                bridge,
                resolved_views(vaults@),
            ),
            r is Err <==> network_setup_error(
                old(ctx)@,
                chain_id,
                bridge,
                resolved_views(vaults@),
            ) is Some,
            r is Err ==> Some(r->Err_0) == network_setup_error(
                old(ctx)@,
                chain_id,
                bridge,
                resolved_views(vaults@),
            ),
            r is Ok ==> r.unwrap()@ == fresh_listener(chain_id, bridge, resolved_views(vaults@)),
    {
        let ghost rvs = resolved_views(vaults@);
        let ghost ks = vault_keys(chain_id, rvs);

        let bridge_listener = match bridge {
            Some(rb) => {
                match ctx.set_has_bridge_proxy() {
                    Ok(_) => Some(
                        BridgeListener::new(rb.bridge_proxy, rb.last_round, rb.relay_count),
                    ),
                    Err(e) => {
                        return Err(e);
                    },
                }
            },
            None => None,
        };
        let ghost reg0 = ctx@;
        proof {
            assert(ks.skip(0) =~= ks);
        }

        let n = vaults.len();
        let mut i: usize = 0;
        while i < n
            invariant
                0 <= i <= n,
                ctx@.has_bridge == reg0.has_bridge,
                ctx@.groups == reg0.groups,
                add_vaults_out(reg0.vaults, ks) == add_vaults_out(ctx@.vaults, ks.skip(i as int)),
                add_vaults_ok(reg0.vaults, ks) == add_vaults_ok(ctx@.vaults, ks.skip(i as int)),
            decreases n - i,
        {
            proof {
                assert(rvs[i as int] == vaults@[i as int]@);
                assert(ks[i as int] == vault_key_of(chain_id, rvs[i as int]));
                assert(ks.skip(i as int).len() == n - i);
                assert(ks.skip(i as int)[0] == ks[i as int]);
            }
            let v_addr = vaults[i].address;
            match ctx.add_vault(chain_id, v_addr) {
                Ok(_) => {
                    proof {
                        assert(ks.skip(i as int).subrange(1, ks.skip(i as int).len() as int) =~= ks.skip(
                            i as int + 1,
                        ));
                    }
                },
                Err(e) => {
                    proof {
                        assert(!add_vaults_ok(ctx@.vaults, ks.skip(i as int)));
                        assert(add_vaults_out(ctx@.vaults, ks.skip(i as int)) == ctx@.vaults);
                    }
                    return Err(e);
                },
            }
            i = i + 1;
        }
        proof {
            assert(ks.skip(n as int) =~= Seq::<VaultKey>::empty());
            assert(add_vaults_ok(reg0.vaults, ks));
            assert(add_vaults_out(reg0.vaults, ks) == ctx@.vaults);
        }

        let ghost g0 = ctx@.groups;
        let ghost vfinal = ctx@.vaults;
        proof {
            assert(rvs.skip(0) =~= rvs);
            assert(vault_listener_views(Seq::<VaultListener>::empty()) =~= fresh_vault_listeners(
                rvs.take(0),
            ));
        }
        let mut listeners: Vec<VaultListener> = Vec::new();
        let mut j: usize = 0;
        while j < n
            invariant
                0 <= j <= n,
                ctx@.has_bridge == reg0.has_bridge,
                ctx@.vaults == vfinal,
                add_groups_out(g0, chain_id, rvs) == add_groups_out(
                    ctx@.groups,
                    chain_id,
                    rvs.skip(j as int),
                ),
                add_groups_ok(g0, chain_id, rvs) == add_groups_ok(
                    ctx@.groups,
                    chain_id,
                    rvs.skip(j as int),
                ),
                vault_listener_views(listeners@) == fresh_vault_listeners(rvs.take(j as int)),
            decreases n - j,
        {
            proof {
                assert(rvs[j as int] == vaults@[j as int]@);
                assert(rvs.skip(j as int).len() == n - j);
                assert(rvs.skip(j as int)[0] == rvs[j as int]);
                assert(rvs.skip(j as int).subrange(1, rvs.skip(j as int).len() as int) =~= rvs.skip(
                    j as int + 1,
                ));
            }
            let v = &vaults[j];
            match &v.group {
                Some(g) => {
                    match ctx.add_token_group(chain_id, v.token, g.clone()) {
                        Ok(_) => {},
                        Err(e) => {
                            proof {
                                assert(!add_groups_ok(ctx@.groups, chain_id, rvs.skip(j as int)));
                                assert(add_groups_out(ctx@.groups, chain_id, rvs.skip(j as int))
                                    == ctx@.groups);
                            }
                            return Err(e);
                        },
                    }
                },
                None => {},
            }
            listeners.push(VaultListener::new(v.address, v.token, v.token_info.duplicate()));
            proof {
                assert(rvs.take(j as int + 1).drop_last() =~= rvs.take(j as int));
                assert(rvs.take(j as int + 1).last() == rvs[j as int]);
                assert(fresh_vault_listeners(rvs.take(j as int + 1)) =~= fresh_vault_listeners(
                    rvs.take(j as int),
                ).push(fresh_vault_listener(rvs[j as int])));
                assert(vault_listener_views(listeners@) =~= fresh_vault_listeners(
                    rvs.take(j as int + 1),
                ));
            }
            j = j + 1;
        }
        proof {
            assert(rvs.skip(n as int) =~= Seq::<ResolvedVaultV>::empty());
            assert(rvs.take(n as int) =~= rvs);
        }

        let r = Listener { chain_id, bridge_listener, vaults: listeners };
        proof {
            assert(r@.vaults =~= fresh_vault_listeners(rvs));
            assert(r@ == fresh_listener(chain_id, bridge, rvs));
        }
        Ok(r)
    }
}

/// The images of a list of resolved networks.
pub open spec fn network_views(s: Seq<ResolvedNetwork>) -> Seq<ResolvedNetworkV> {
    s.map_values(|n: ResolvedNetwork| n@)
}

/// The registry every service starts from: nothing admitted.
pub open spec fn empty_registry() -> RegistryV {
    RegistryV { has_bridge: false, vaults: Seq::empty(), groups: Seq::empty() }
}

/// The first error, if any, that setting the networks up in order
/// against the given registry raises.
pub open spec fn networks_setup_error(r: RegistryV, ns: Seq<ResolvedNetworkV>) -> Option<
    RegistryError,
>
    decreases ns.len(),
{
    if ns.len() == 0 {
        None
    } else {
        let e = network_setup_error(r, ns[0].chain_id, ns[0].bridge, ns[0].vaults);
        if e is Some {
            e
        } else {
            networks_setup_error(
                network_setup_registry(r, ns[0].chain_id, ns[0].bridge, ns[0].vaults),
                ns.subrange(1, ns.len() as int),
            )
        }
    }
}

/// The registry after setting the networks up in order, stopping at
/// the first error.
pub open spec fn networks_setup_registry(r: RegistryV, ns: Seq<ResolvedNetworkV>) -> RegistryV
    decreases ns.len(),
{
    if ns.len() == 0 {
        r
    } else {
        let r1 = network_setup_registry(r, ns[0].chain_id, ns[0].bridge, ns[0].vaults);
        if network_setup_error(r, ns[0].chain_id, ns[0].bridge, ns[0].vaults) is Some {
            r1
        } else {
            networks_setup_registry(r1, ns.subrange(1, ns.len() as int))
        }
    }
}

/// The listeners a successful startup creates, in network order.
pub open spec fn fresh_listeners(ns: Seq<ResolvedNetworkV>) -> Seq<ListenerV> {
    ns.map_values(|nv: ResolvedNetworkV| fresh_listener(nv.chain_id, nv.bridge, nv.vaults))
}

/// The service: every network listener plus the token catalogue
/// computed once at startup.
pub struct Service {
    pub listeners: Vec<Listener>,
    pub token_decimals: Vec<MetricEntry>,
}

/// The mathematical image of the service.
#[verifier::ext_equal]
pub struct ServiceV {
    pub listeners: Seq<ListenerV>,
    pub token_decimals: Seq<EntryV>,
}

impl View for Service {
    type V = ServiceV;

    open spec fn view(&self) -> ServiceV {
        ServiceV {
            listeners: listener_views(self.listeners@),
            token_decimals: entries_view(self.token_decimals@),
        }
    }
}

impl Service {
    /// Creates the service: sets every network up against one shared
    /// admission registry, in configuration order, and computes the
    /// token catalogue once; the first refusal aborts startup with
    /// that refusal's error.
    #[verifier::loop_isolation(false)]
    pub fn new(networks: Vec<ResolvedNetwork>) -> (r: Result<Service, RegistryError>)
        ensures
            r is Ok <==> networks_setup_error(empty_registry(), network_views(networks@)) is None,
            r is Err ==> Some(r->Err_0) == networks_setup_error(
                empty_registry(),
                network_views(networks@),
            ),
            r is Ok ==> r.unwrap()@.listeners == fresh_listeners(network_views(networks@)),
            r is Ok ==> r.unwrap()@.token_decimals == catalogue(
                token_pairs(fresh_listeners(network_views(networks@))),
                Set::empty(),
                networks_setup_registry(empty_registry(), network_views(networks@)).groups,
            ),
    {
        let mut ctx = InitializationContext::new();
        let ghost all = network_views(networks@);
        proof {
            assert(ctx@ =~= empty_registry());
            assert(all.skip(0) =~= all);
            assert(listener_views(Seq::<Listener>::empty()) =~= fresh_listeners(all.take(0)));
        }
        let mut networks = networks;
        let mut listeners: Vec<Listener> = Vec::new();
        let ghost mut k: int = 0;
        while networks.len() > 0
            invariant
                0 <= k <= all.len(),
                networks@.len() == all.len() - k,
                network_views(networks@) == all.skip(k),
                listener_views(listeners@) == fresh_listeners(all.take(k)),
                networks_setup_error(empty_registry(), all) == networks_setup_error(
                    ctx@,
                    all.skip(k),
                ),
                networks_setup_registry(empty_registry(), all) == networks_setup_registry(
                    ctx@,
                    all.skip(k),
                ),
            decreases networks@.len(),
        {
            let ghost nets0 = networks@;
            let nw = networks.remove(0);
            proof {
                assert(network_views(nets0)[0] == nets0[0]@);
                assert(nw@ == all.skip(k)[0]);
                assert(all.skip(k)[0] == all[k]);
                assert(network_views(networks@) =~= network_views(nets0).subrange(
                    1,
                    network_views(nets0).len() as int,
                ));
                assert(all.skip(k).subrange(1, all.skip(k).len() as int) =~= all.skip(k + 1));
                assert(network_views(networks@) =~= all.skip(k + 1));
            }
            let chain_id = nw.chain_id;
            let bridge = nw.bridge;
            let ghost ctx_pre = ctx@;
            match Listener::new(&mut ctx, chain_id, bridge, nw.vaults) {
                Ok(l) => {
                    proof {
                        assert(all[k].chain_id == chain_id && all[k].bridge == bridge);
                        assert(all[k].vaults == nw@.vaults);
                        assert(networks_setup_error(ctx_pre, all.skip(k)) == networks_setup_error(
                            ctx@,
                            all.skip(k + 1),
                        ));
                        assert(networks_setup_registry(ctx_pre, all.skip(k))
                            == networks_setup_registry(ctx@, all.skip(k + 1)));
                    }
                    listeners.push(l);
                    proof {
                        assert(all.take(k + 1).drop_last() =~= all.take(k));
                        assert(all.take(k + 1).last() == all[k]);
                        assert(fresh_listeners(all.take(k + 1)) =~= fresh_listeners(
                            all.take(k),
                        ).push(fresh_listener(all[k].chain_id, all[k].bridge, all[k].vaults)));
                        assert(listener_views(listeners@) =~= fresh_listeners(all.take(k + 1)));
                        k = k + 1;
                    }
                },
                Err(e) => {
                    proof {
                        assert(network_setup_error(
                            ctx_pre,
                            all[k].chain_id,
                            all[k].bridge,
                            all[k].vaults,
                        ) is Some);
                        assert(networks_setup_error(ctx_pre, all.skip(k)) == Some(e));
                        assert(networks_setup_registry(ctx_pre, all.skip(k)) == ctx@);
                    }
                    return Err(e);
                },
            }
        }
        proof {
            assert(all.skip(k) =~= Seq::<ResolvedNetworkV>::empty());
            assert(all.take(k) =~= all);
        }
        let token_decimals = ctx.prepare_decimals_info(&listeners);
        let s = Service { listeners, token_decimals };
        Ok(s)
    }
}

/// Whether no vault key repeats.
pub open spec fn distinct_keys(s: Seq<VaultKey>) -> bool {
    forall|i: int, j: int| 0 <= i < j < s.len() ==> s[i] != s[j]
}

/// Every network's vault keys, flattened in configuration order.
pub open spec fn all_network_keys(ns: Seq<ResolvedNetworkV>) -> Seq<VaultKey>
    decreases ns.len(),
{
    if ns.len() == 0 {
        Seq::empty()
    } else {
        vault_keys(ns[0].chain_id, ns[0].vaults) + all_network_keys(
            ns.subrange(1, ns.len() as int),
        )
    }
}

proof fn lemma_add_vaults_appends(s: Seq<VaultKey>, ks: Seq<VaultKey>)
    requires
        add_vaults_ok(s, ks),
        distinct_keys(s),
    ensures
        add_vaults_out(s, ks) == s + ks,
        distinct_keys(s + ks),
    decreases ks.len(),
{
    if ks.len() == 0 {
        assert(s + ks =~= s);
    } else {
        assert(!s.contains(ks[0]));
        let s2 = s.push(ks[0]);
        assert forall|i: int, j: int| 0 <= i < j < s2.len() implies s2[i] != s2[j] by {
            if j < s.len() {
            } else {
                assert(s2[j] == ks[0]);
                if s2[i] == ks[0] {
                    assert(s[i] == ks[0]);
                    assert(s.contains(ks[0]));
                }
            }
        }
        lemma_add_vaults_appends(s2, ks.subrange(1, ks.len() as int));
        assert(s2 + ks.subrange(1, ks.len() as int) =~= s + ks);
    }
}

proof fn lemma_network_setup_appends(
    r: RegistryV,
    chain_id: u32,
    bridge: Option<ResolvedBridge>,
    vs: Seq<ResolvedVaultV>,
)
    requires
        network_setup_error(r, chain_id, bridge, vs) is None,
        distinct_keys(r.vaults),
    ensures
        network_setup_registry(r, chain_id, bridge, vs).vaults == r.vaults + vault_keys(
            chain_id,
            vs,
        ),
        distinct_keys(r.vaults + vault_keys(chain_id, vs)),
{
    lemma_add_vaults_appends(r.vaults, vault_keys(chain_id, vs));
}

proof fn lemma_setup_vaults_unique(r: RegistryV, ns: Seq<ResolvedNetworkV>)
    requires
        networks_setup_error(r, ns) is None,
        distinct_keys(r.vaults),
    ensures
        networks_setup_registry(r, ns).vaults == r.vaults + all_network_keys(ns),
        distinct_keys(r.vaults + all_network_keys(ns)),
    decreases ns.len(),
{
    if ns.len() == 0 {
        assert(r.vaults + all_network_keys(ns) =~= r.vaults);
    } else {
        lemma_network_setup_appends(r, ns[0].chain_id, ns[0].bridge, ns[0].vaults);
        let r1 = network_setup_registry(r, ns[0].chain_id, ns[0].bridge, ns[0].vaults);
        lemma_setup_vaults_unique(r1, ns.subrange(1, ns.len() as int));
        assert((r.vaults + vault_keys(ns[0].chain_id, ns[0].vaults)) + all_network_keys(
            ns.subrange(1, ns.len() as int),
        ) =~= r.vaults + all_network_keys(ns));
    }
}

/// A vault address is registered under at most one network context:
/// whenever startup succeeds, the flattened vault keys of all
/// networks are pairwise distinct, and they are exactly what the
/// registry holds afterwards.
pub proof fn lemma_successful_startup_has_unique_vaults(ns: Seq<ResolvedNetworkV>)
    requires
        networks_setup_error(empty_registry(), ns) is None,
    ensures
        distinct_keys(all_network_keys(ns)),
        networks_setup_registry(empty_registry(), ns).vaults == all_network_keys(ns),
{
    lemma_setup_vaults_unique(empty_registry(), ns);
    assert(Seq::<VaultKey>::empty() + all_network_keys(ns) =~= all_network_keys(ns));
}

proof fn lemma_group_of_preserved_by_groups_fold(
    gs: Seq<GroupEntryV>,
    chain_id: u32,
    vs: Seq<ResolvedVaultV>,
    c2: u32,
    t2: Address,
    g2: Seq<char>,
)
    requires
        group_of(gs, c2, t2) == Some(g2),
    ensures
        group_of(add_groups_out(gs, chain_id, vs), c2, t2) == Some(g2),
    decreases vs.len(),
{
    if vs.len() > 0 {
        let rest = vs.subrange(1, vs.len() as int);
        match vs[0].group {
            Option::None => {
                lemma_group_of_preserved_by_groups_fold(gs, chain_id, rest, c2, t2, g2);
            },
            Option::Some(g) => {
                if group_admissible(gs, chain_id, vs[0].token, g) {
                    let gs2 = group_step(gs, chain_id, vs[0].token, g);
                    assert(group_of(gs2, c2, t2) == Some(g2)) by {
                        if group_of(gs, chain_id, vs[0].token) is None {
                            assert(!(chain_id == c2 && vs[0].token == t2));
                            assert(gs2.drop_last() =~= gs);
                        }
                    }
                    lemma_group_of_preserved_by_groups_fold(gs2, chain_id, rest, c2, t2, g2);
                }
            },
        }
    }
}

proof fn lemma_groups_fold_records_each_label(
    gs: Seq<GroupEntryV>,
    chain_id: u32,
    vs: Seq<ResolvedVaultV>,
    i: int,
)
    requires
        add_groups_ok(gs, chain_id, vs),
        0 <= i < vs.len(),
        vs[i].group is Some,
    ensures
        group_of(add_groups_out(gs, chain_id, vs), chain_id, vs[i].token) == Some(
            vs[i].group.unwrap(),
        ),
    decreases vs.len(),
{
    let rest = vs.subrange(1, vs.len() as int);
    if i == 0 {
        let g = vs[0].group.unwrap();
        let gs2 = group_step(gs, chain_id, vs[0].token, g);
        assert(group_of(gs2, chain_id, vs[0].token) == Some(g)) by {
            if group_of(gs, chain_id, vs[0].token) is None {
                assert(gs2.last() == (GroupEntryV { chain_id, token: vs[0].token, group: g }));
            }
        }
        lemma_group_of_preserved_by_groups_fold(gs2, chain_id, rest, chain_id, vs[0].token, g);
    } else {
        match vs[0].group {
            Option::None => {
                lemma_groups_fold_records_each_label(gs, chain_id, rest, i - 1);
            },
            Option::Some(g) => {
                let gs2 = group_step(gs, chain_id, vs[0].token, g);
                lemma_groups_fold_records_each_label(gs2, chain_id, rest, i - 1);
            },
        }
    }
}

proof fn lemma_group_of_preserved_by_networks_fold(
    r: RegistryV,
    ns: Seq<ResolvedNetworkV>,
    c2: u32,
    t2: Address,
    g2: Seq<char>,
)
    requires
        group_of(r.groups, c2, t2) == Some(g2),
    ensures
        group_of(networks_setup_registry(r, ns).groups, c2, t2) == Some(g2),
    decreases ns.len(),
{
    if ns.len() > 0 {
        let r1 = network_setup_registry(r, ns[0].chain_id, ns[0].bridge, ns[0].vaults);
        assert(group_of(r1.groups, c2, t2) == Some(g2)) by {
            if bridge_admissible(r, ns[0].bridge) && add_vaults_ok(
                post_bridge(r, ns[0].bridge).vaults,
                vault_keys(ns[0].chain_id, ns[0].vaults),
            ) {
                lemma_group_of_preserved_by_groups_fold(
                    r.groups,
                    ns[0].chain_id,
                    ns[0].vaults,
                    c2,
                    t2,
                    g2,
                );
            }
        }
        if network_setup_error(r, ns[0].chain_id, ns[0].bridge, ns[0].vaults) is None {
            lemma_group_of_preserved_by_networks_fold(
                r1,
                ns.subrange(1, ns.len() as int),
                c2,
                t2,
                g2,
            );
        }
    }
}

/// Every declared group label is recorded: after a successful
/// startup, a vault that declared a label for its token finds
/// exactly that label in the registry.
pub proof fn lemma_successful_startup_records_groups(ns: Seq<ResolvedNetworkV>, n: int, v: int)
    requires
        networks_setup_error(empty_registry(), ns) is None,
        0 <= n < ns.len(),
        0 <= v < ns[n].vaults.len(),
        ns[n].vaults[v].group is Some,
    ensures
        group_of(
            networks_setup_registry(empty_registry(), ns).groups,
            ns[n].chain_id,
            ns[n].vaults[v].token,
        ) == Some(ns[n].vaults[v].group.unwrap()),
{
    lemma_startup_records_groups_from(empty_registry(), ns, n, v);
}

proof fn lemma_startup_records_groups_from(r: RegistryV, ns: Seq<ResolvedNetworkV>, n: int, v: int)
    requires
        networks_setup_error(r, ns) is None,
        0 <= n < ns.len(),
        0 <= v < ns[n].vaults.len(),
        ns[n].vaults[v].group is Some,
    ensures
        group_of(
            networks_setup_registry(r, ns).groups,
            ns[n].chain_id,
            ns[n].vaults[v].token,
        ) == Some(ns[n].vaults[v].group.unwrap()),
    decreases ns.len(),
{
    let r1 = network_setup_registry(r, ns[0].chain_id, ns[0].bridge, ns[0].vaults);
    let rest = ns.subrange(1, ns.len() as int);
    if n == 0 {
        lemma_groups_fold_records_each_label(r.groups, ns[0].chain_id, ns[0].vaults, v);
        lemma_group_of_preserved_by_networks_fold(
            r1,
            rest,
            ns[0].chain_id,
            ns[0].vaults[v].token,
            ns[0].vaults[v].group.unwrap(),
        );
    } else {
        lemma_startup_records_groups_from(r1, rest, n - 1, v);
    }
}

/// A token's group label is either absent everywhere or identical
/// everywhere the token appears: any two vaults that declared labels
/// for the same (chain id, token) pair and passed startup declared
/// the same label.
pub proof fn lemma_group_labels_agree(
    ns: Seq<ResolvedNetworkV>,
    n1: int,
    v1: int,
    n2: int,
    v2: int,
)
    requires
        networks_setup_error(empty_registry(), ns) is None,
        0 <= n1 < ns.len() && 0 <= v1 < ns[n1].vaults.len(),
        0 <= n2 < ns.len() && 0 <= v2 < ns[n2].vaults.len(),
        ns[n1].chain_id == ns[n2].chain_id,
        ns[n1].vaults[v1].token == ns[n2].vaults[v2].token,
        ns[n1].vaults[v1].group is Some,
        ns[n2].vaults[v2].group is Some,
    ensures
        ns[n1].vaults[v1].group == ns[n2].vaults[v2].group,
{
    lemma_successful_startup_records_groups(ns, n1, v1);
    lemma_successful_startup_records_groups(ns, n2, v2);
}

/// How many networks declare a bridge proxy.
pub open spec fn bridge_count(ns: Seq<ResolvedNetworkV>) -> nat
    decreases ns.len(),
{
    if ns.len() == 0 {
        0
    } else {
        (if ns[0].bridge is Some {
            1nat
        } else {
            0nat
        }) + bridge_count(ns.subrange(1, ns.len() as int))
    }
}

proof fn lemma_bridge_budget(r: RegistryV, ns: Seq<ResolvedNetworkV>)
    requires
        networks_setup_error(r, ns) is None,
    ensures
        r.has_bridge ==> bridge_count(ns) == 0,
        !r.has_bridge ==> bridge_count(ns) <= 1,
    decreases ns.len(),
{
    if ns.len() > 0 {
        let r1 = network_setup_registry(r, ns[0].chain_id, ns[0].bridge, ns[0].vaults);
        assert(r1.has_bridge == (r.has_bridge || ns[0].bridge is Some));
        lemma_bridge_budget(r1, ns.subrange(1, ns.len() as int));
    }
}

/// At most one bridge proxy is admitted in the whole configuration:
/// whenever startup succeeds, no more than one network declares one.
pub proof fn lemma_at_most_one_bridge(ns: Seq<ResolvedNetworkV>)
    requires
        networks_setup_error(empty_registry(), ns) is None,
    ensures
        bridge_count(ns) <= 1,
{
    lemma_bridge_budget(empty_registry(), ns);
}

/// A vault refresher after its latch fired.
pub open spec fn started_vault(v: VaultListenerV) -> VaultListenerV {
    VaultListenerV { listening: true, ..v }
}

/// Every vault refresher of a list, started.
pub open spec fn started_vaults(vs: Seq<VaultListenerV>) -> Seq<VaultListenerV> {
    vs.map_values(|v: VaultListenerV| started_vault(v))
}

/// A bridge refresher after its latch fired, if there is one.
pub open spec fn started_bridge(b: Option<BridgeListener>) -> Option<BridgeListener> {
    match b {
        Option::Some(bl) => Option::Some(
            BridgeListener {
                listening: true,
                bridge_proxy: bl.bridge_proxy,
                current_round: bl.current_round,
                relay_count: bl.relay_count,
            },
        ),
        Option::None => Option::None,
    }
}

/// A listener with every refresher started.
pub open spec fn started_listener(l: ListenerV) -> ListenerV {
    ListenerV {
        chain_id: l.chain_id,
        bridge_listener: started_bridge(l.bridge_listener),
        vaults: started_vaults(l.vaults),
    }
}

/// Every listener of a list, started.
pub open spec fn started_listeners(ls: Seq<ListenerV>) -> Seq<ListenerV> {
    ls.map_values(|l: ListenerV| started_listener(l))
}

/// How many vault refreshers of a list are not yet listening.
pub open spec fn vaults_idle_count(vs: Seq<VaultListenerV>) -> nat
    decreases vs.len(),
{
    if vs.len() == 0 {
        0
    } else {
        vaults_idle_count(vs.drop_last()) + (if !vs.last().listening {
            1nat
        } else {
            0nat
        })
    }
}

/// How many refreshers of one listener are not yet listening.
pub open spec fn listener_idle_count(l: ListenerV) -> nat {
    (match l.bridge_listener {
        Option::Some(b) => if !b.listening {
            1nat
        } else {
            0nat
        },
        Option::None => 0nat,
    }) + vaults_idle_count(l.vaults)
}

/// How many refreshers of all listeners are not yet listening.
pub open spec fn idle_count(ls: Seq<ListenerV>) -> nat
    decreases ls.len(),
{
    if ls.len() == 0 {
        0
    } else {
        idle_count(ls.drop_last()) + listener_idle_count(ls.last())
    }
}

proof fn lemma_idle_count_take(ls: Seq<ListenerV>, k: int)
    requires
        0 <= k <= ls.len(),
    ensures
        idle_count(ls.take(k)) <= idle_count(ls),
    decreases ls.len() - k,
{
    if k < ls.len() {
        assert(ls.take(k + 1).drop_last() =~= ls.take(k));
        assert(ls.take(k + 1).last() == ls[k]);
        lemma_idle_count_take(ls, k + 1);
    } else {
        assert(ls.take(k) =~= ls);
    }
}

proof fn lemma_started_vaults_idle(vs: Seq<VaultListenerV>)
    ensures
        vaults_idle_count(started_vaults(vs)) == 0,
    decreases vs.len(),
{
    if vs.len() > 0 {
        assert(started_vaults(vs).drop_last() =~= started_vaults(vs.drop_last()));
        assert(started_vaults(vs).last() == started_vault(vs.last()));
        lemma_started_vaults_idle(vs.drop_last());
    }
}

/// Starting the refreshers a second time starts nothing: after one
/// pass every refresher listens, so no idle refresher is left for a
/// second pass to schedule.
pub proof fn lemma_second_start_is_noop(ls: Seq<ListenerV>)
    ensures
        idle_count(started_listeners(ls)) == 0,
    decreases ls.len(),
{
    if ls.len() > 0 {
        assert(started_listeners(ls).drop_last() =~= started_listeners(ls.drop_last()));
        assert(started_listeners(ls).last() == started_listener(ls.last()));
        lemma_started_vaults_idle(ls.last().vaults);
        lemma_second_start_is_noop(ls.drop_last());
    }
}

/// Starts every vault refresher of a list and counts how many were
/// newly started.
#[verifier::loop_isolation(false)]
fn start_vaults(vs: Vec<VaultListener>) -> (r: (Vec<VaultListener>, usize))
    ensures
        vault_listener_views(r.0@) == started_vaults(vault_listener_views(vs@)),
        r.1 == vaults_idle_count(vault_listener_views(vs@)),
{
    let ghost all = vault_listener_views(vs@);
    let mut src = vs;
    let total = src.len();
    let mut out: Vec<VaultListener> = Vec::new();
    let mut count: usize = 0;
    let ghost mut k: int = 0;
    proof {
        assert(all.skip(0) =~= all);
        assert(vault_listener_views(Seq::<VaultListener>::empty()) =~= started_vaults(
            all.take(0),
        ));
    }
    while src.len() > 0
        invariant
            0 <= k <= all.len(),
            src@.len() == all.len() - k,
            vault_listener_views(src@) == all.skip(k),
            vault_listener_views(out@) == started_vaults(all.take(k)),
            count == vaults_idle_count(all.take(k)),
            count <= k,
            all.len() == total,
        decreases src@.len(),
    {
        let ghost src0 = src@;
        let mut v = src.remove(0);
        proof {
            assert(vault_listener_views(src0)[0] == src0[0]@);
            assert(v@ == all.skip(k)[0]);
            assert(all.skip(k)[0] == all[k]);
            assert(vault_listener_views(src@) =~= vault_listener_views(src0).subrange(
                1,
                vault_listener_views(src0).len() as int,
            ));
            assert(all.skip(k).subrange(1, all.skip(k).len() as int) =~= all.skip(k + 1));
            assert(vault_listener_views(src@) =~= all.skip(k + 1));
        }
        let started = v.try_start();
        if started {
            proof {
                assert(count < total);
            }
            count = count + 1;
        }
        out.push(v);
        proof {
            assert(all.take(k + 1).drop_last() =~= all.take(k));
            assert(all.take(k + 1).last() == all[k]);
            assert(v@ =~~= started_vault(all[k]));
            assert(started_vaults(all.take(k + 1)) =~= started_vaults(all.take(k)).push(
                started_vault(all[k]),
            ));
            assert(vault_listener_views(out@) =~= started_vaults(all.take(k + 1)));
            k = k + 1;
        }
    }
    proof {
        assert(all.skip(k) =~= Seq::<VaultListenerV>::empty());
        assert(all.take(k) =~= all);
    }
    (out, count)
}

impl Service {
    /// Fires every refresher latch that has not fired yet and reports
    /// how many refreshers were newly started; refreshers already
    /// listening are untouched, so a second call reports zero.
    #[verifier::loop_isolation(false)]
    pub fn start_listening(&mut self) -> (started: usize)
        requires
            idle_count(listener_views(old(self).listeners@)) <= usize::MAX,
        ensures
            final(self)@.listeners == started_listeners(old(self)@.listeners),
            final(self)@.token_decimals == old(self)@.token_decimals,
            started == idle_count(listener_views(old(self).listeners@)),
    {
        let mut work: Vec<Listener> = Vec::new();
        core::mem::swap(&mut self.listeners, &mut work);
        let ghost all = listener_views(work@);
        let mut out: Vec<Listener> = Vec::new();
        let mut started: usize = 0;
        let ghost mut k: int = 0;
        proof {
            assert(all.skip(0) =~= all);
            assert(listener_views(Seq::<Listener>::empty()) =~= started_listeners(all.take(0)));
        }
        while work.len() > 0
            invariant
                0 <= k <= all.len(),
                work@.len() == all.len() - k,
                listener_views(work@) == all.skip(k),
                listener_views(out@) == started_listeners(all.take(k)),
                started == idle_count(all.take(k)),
                idle_count(listener_views(old(self).listeners@)) <= usize::MAX,
                all == listener_views(old(self).listeners@),
            decreases work@.len(),
        {
            let ghost work0 = work@;
            let l = work.remove(0);
            proof {
                assert(listener_views(work0)[0] == work0[0]@);
                assert(l@ == all.skip(k)[0]);
                assert(all.skip(k)[0] == all[k]);
                assert(listener_views(work@) =~= listener_views(work0).subrange(
                    1,
                    listener_views(work0).len() as int,
                ));
                assert(all.skip(k).subrange(1, all.skip(k).len() as int) =~= all.skip(k + 1));
                assert(listener_views(work@) =~= all.skip(k + 1));
                lemma_idle_count_take(all, k + 1);
                assert(all.take(k + 1).drop_last() =~= all.take(k));
                assert(all.take(k + 1).last() == all[k]);
            }
            let Listener { chain_id, bridge_listener, vaults } = l;
            let mut bridge_started: usize = 0;
            let bridge_listener = match bridge_listener {
                Some(mut b) => {
                    if b.try_start() {
                        bridge_started = 1;
                    }
                    Some(b)
                },
                None => None,
            };
            let pair = start_vaults(vaults);
            let vaults2 = pair.0;
            let vault_started = pair.1;
            proof {
                assert(idle_count(all.take(k + 1)) == idle_count(all.take(k))
                    + listener_idle_count(all[k]));
                assert(vault_started == vaults_idle_count(all[k].vaults));
                assert(bridge_started + vault_started == listener_idle_count(all[k]));
                assert(started + bridge_started + vault_started <= idle_count(all));
            }
            started = started + bridge_started + vault_started;
            out.push(Listener { chain_id, bridge_listener, vaults: vaults2 });
            proof {
                assert(listener_views(out@).last() =~~= started_listener(all[k]));
                assert(started_listeners(all.take(k + 1)) =~= started_listeners(all.take(k)).push(
                    started_listener(all[k]),
                ));
                assert(listener_views(out@) =~= started_listeners(all.take(k + 1)));
                assert(started == idle_count(all.take(k + 1)));
                k = k + 1;
            }
        }
        proof {
            assert(all.skip(k) =~= Seq::<ListenerV>::empty());
            assert(all.take(k) =~= all);
        }
        core::mem::swap(&mut self.listeners, &mut out);
        started
    }
}

} // verus!
