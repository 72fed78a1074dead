//! The snapshot renderer.
//!
//! A pure pass over the listeners produces the metric entries: for
//! every vault that has been refreshed at least once, its five value
//! entries and its timestamp entry; for every bridge, its round and
//! relay-count entries; and, computed once at startup, the token
//! catalogue with one `token_decimals` entry per distinct
//! (chain id, token) pair.

use vstd::prelude::*;
use vstd::string::*;
use crate::address::{Address, address_hex};
use crate::digits::{dec_str, u32_to_dec};
use crate::metrics::{EntryV, LabelV, MetricEntry, MetricLabel, entries_view, labels_view, mk_entry, mk_label};
use crate::registry::{GroupEntryV, InitializationContext, group_of};
use crate::service::{Listener, ListenerV, Service, VaultListenerV, listener_views, vault_listener_views};
use crate::state::{BridgeListener, TokenInfo, TokenInfoV, VaultFetchV, VaultListener, published_state, withdrawal_period};

verus! {

/// The labels shared by a vault's value entries.
pub open spec fn vault_base_labels(chain_id: u32, vault: Address, token: Address) -> Seq<LabelV> {
    seq![
        LabelV { key: "chain_id"@, value: dec_str(chain_id as int) },
        LabelV { key: "vault"@, value: address_hex(vault) },
        LabelV { key: "token"@, value: address_hex(token) },
    ]
}

/// The entries one vault contributes: none before its first refresh,
/// afterwards its five values and its timestamp, each under the
/// labels the exposition expects.
pub open spec fn vault_entries(chain_id: u32, v: VaultListenerV) -> Seq<EntryV> {
    if v.state.updated_at == 0 {
        Seq::empty()
    } else {
        let base = vault_base_labels(chain_id, v.vault, v.token);
        let period = base.push(
            LabelV {
                key: "withdrawal_period"@,
                value: dec_str(v.state.updated_at as int / 86400),
            },
        );
        seq![
            EntryV { name: "balance"@, labels: base, value: v.state.balance },
            EntryV { name: "total_assets"@, labels: base, value: v.state.total_assets },
            EntryV { name: "withdraw_limit_per_period"@, labels: base, value: v.state.withdraw_limit },
            EntryV { name: "withdrawal_period_total"@, labels: period, value: v.state.withdraw_total },
            EntryV {
                name: "withdrawal_period_considered"@,
                labels: period,
                value: v.state.withdraw_considered,
            },
            EntryV {
                name: "updated_at"@,
                labels: seq![
                    LabelV { key: "chain_id"@, value: dec_str(chain_id as int) },
                    LabelV { key: "vault"@, value: address_hex(v.vault) },
                ],
                value: dec_str(v.state.updated_at as int),
            },
        ]
    }
}

/// A vault that was never refreshed contributes no entries at all,
/// and a refreshed vault's value entries carry its fetched strings
/// byte for byte.
pub proof fn lemma_unrefreshed_vault_hidden(chain_id: u32, v: VaultListenerV)
    requires
        v.state.updated_at == 0,
    ensures
        vault_entries(chain_id, v) == Seq::<EntryV>::empty(),
{
}

/// After one successful tick a vault appears in rendered output with
/// every value entry carrying the fetched decimal string byte for
/// byte, and its timestamp entry carrying the tick's timestamp.
pub proof fn lemma_refreshed_vault_rendered(
    chain_id: u32,
    v: VaultListenerV,
    now_seconds: u32,
    f: VaultFetchV,
)
    requires
        now_seconds != 0,
        v.state == published_state(now_seconds, f),
    ensures
        vault_entries(chain_id, v).len() == 6,
        vault_entries(chain_id, v)[0].value == f.balance,
        vault_entries(chain_id, v)[1].value == f.total_assets,
        vault_entries(chain_id, v)[2].value == f.withdraw_limit,
        vault_entries(chain_id, v)[3].value == f.withdraw_total,
        vault_entries(chain_id, v)[4].value == f.withdraw_considered,
        vault_entries(chain_id, v)[5].value == dec_str(now_seconds as int),
{
}

/// The entries a bridge refresher contributes.
pub open spec fn bridge_entries(b: Option<BridgeListener>) -> Seq<EntryV> {
    match b {
        Option::None => Seq::empty(),
        Option::Some(bl) => seq![
            EntryV {
                name: "relay_round"@,
                labels: seq![LabelV { key: "bridge_proxy"@, value: address_hex(bl.bridge_proxy) }],
                value: dec_str(bl.current_round as int),
            },
            EntryV {
                name: "relay_count"@,
                labels: seq![LabelV { key: "bridge_proxy"@, value: address_hex(bl.bridge_proxy) }],
                value: dec_str(bl.relay_count as int),
            },
        ],
    }
}

/// The entries of a list of vaults, in order.
pub open spec fn vaults_entries(chain_id: u32, vs: Seq<VaultListenerV>) -> Seq<EntryV>
    decreases vs.len(),
{
    if vs.len() == 0 {
        Seq::empty()
    } else {
        vaults_entries(chain_id, vs.drop_last()) + vault_entries(chain_id, vs.last())
    }
}

/// The entries one listener contributes: its bridge first, then its
/// vaults.
pub open spec fn listener_entries(l: ListenerV) -> Seq<EntryV> {
    bridge_entries(l.bridge_listener) + vaults_entries(l.chain_id, l.vaults)
}

/// The entries of all listeners, in order.
pub open spec fn all_entries(ls: Seq<ListenerV>) -> Seq<EntryV>
    decreases ls.len(),
{
    if ls.len() == 0 {
        Seq::empty()
    } else {
        all_entries(ls.drop_last()) + listener_entries(ls.last())
    }
}

/// Builds the shared label list of a vault's value entries.
fn base_labels(chain_id: u32, vault: &Address, token: &Address) -> (r: Vec<MetricLabel>)
    ensures
        labels_view(r@) == vault_base_labels(chain_id, *vault, *token),
{
    let mut r: Vec<MetricLabel> = Vec::new();
    r.push(mk_label("chain_id", u32_to_dec(chain_id)));
    r.push(mk_label("vault", vault.to_hex()));
    r.push(mk_label("token", token.to_hex()));
    proof {
        assert(labels_view(r@) =~~= vault_base_labels(chain_id, *vault, *token));
    }
    r
}

/// Renders one vault's entries.
pub fn render_vault_entries(chain_id: u32, v: &VaultListener) -> (r: Vec<MetricEntry>)
    ensures
        entries_view(r@) == vault_entries(chain_id, v@),
{
    let mut r: Vec<MetricEntry> = Vec::new();
    if v.state.updated_at == 0 {
        proof {
            assert(entries_view(r@) =~~= vault_entries(chain_id, v@));
        }
        return r;
    }
    let base = base_labels(chain_id, &v.vault, &v.token);
    r.push(mk_entry("balance", base, v.state.balance.clone()));

    let base = base_labels(chain_id, &v.vault, &v.token);
    r.push(mk_entry("total_assets", base, v.state.total_assets.clone()));

    let base = base_labels(chain_id, &v.vault, &v.token);
    r.push(mk_entry("withdraw_limit_per_period", base, v.state.withdraw_limit.clone()));

    let mut period = base_labels(chain_id, &v.vault, &v.token);
    period.push(mk_label("withdrawal_period", u32_to_dec(withdrawal_period(v.state.updated_at))));
    r.push(mk_entry("withdrawal_period_total", period, v.state.withdraw_total.clone()));

    let mut period = base_labels(chain_id, &v.vault, &v.token);
    period.push(mk_label("withdrawal_period", u32_to_dec(withdrawal_period(v.state.updated_at))));
    r.push(mk_entry("withdrawal_period_considered", period, v.state.withdraw_considered.clone()));

    let mut short: Vec<MetricLabel> = Vec::new();
    short.push(mk_label("chain_id", u32_to_dec(chain_id)));
    short.push(mk_label("vault", v.vault.to_hex()));
    r.push(mk_entry("updated_at", short, u32_to_dec(v.state.updated_at)));

    proof {
        assert(entries_view(r@) =~~= vault_entries(chain_id, v@));
    }
    r
}

/// Renders one bridge's entries.
pub fn render_bridge_entries(b: &Option<BridgeListener>) -> (r: Vec<MetricEntry>)
    ensures
        entries_view(r@) == bridge_entries(*b),
{
    let mut r: Vec<MetricEntry> = Vec::new();
    match b {
        Some(bl) => {
            let mut labels: Vec<MetricLabel> = Vec::new();
            labels.push(mk_label("bridge_proxy", bl.bridge_proxy.to_hex()));
            r.push(mk_entry("relay_round", labels, u32_to_dec(bl.current_round)));

            let mut labels: Vec<MetricLabel> = Vec::new();
            labels.push(mk_label("bridge_proxy", bl.bridge_proxy.to_hex()));
            r.push(mk_entry("relay_count", labels, u32_to_dec(bl.relay_count)));
        },
        None => {},
    }
    proof {
        assert(entries_view(r@) =~~= bridge_entries(*b));
    }
    r
}

/// Renders one listener's entries: bridge first, then every vault.
#[verifier::loop_isolation(false)]
pub fn render_listener_entries(l: &Listener) -> (r: Vec<MetricEntry>)
    ensures
        entries_view(r@) == listener_entries(l@),
{
    let mut r = render_bridge_entries(&l.bridge_listener);
    let ghost vs = vault_listener_views(l.vaults@);
    let n = l.vaults.len();
    let mut i: usize = 0;
    while i < n
        invariant
            0 <= i <= n,
            entries_view(r@) == bridge_entries(l@.bridge_listener) + vaults_entries(
                l@.chain_id,
                vs.take(i as int),
            ),
        decreases n - i,
    {
        let mut es = render_vault_entries(l.chain_id, &l.vaults[i]);
        let ghost r_before = r@;
        let ghost es_v = es@;
        append_entries(&mut r, es);
        proof {
            assert(vs.take(i as int + 1).drop_last() =~= vs.take(i as int));
            assert(vs.take(i as int + 1).last() == vs[i as int]);
            assert(vs[i as int] == l.vaults@[i as int]@);
            assert(entries_view(r_before + es_v) =~= entries_view(r_before) + entries_view(es_v));
            assert(entries_view(r@) =~= bridge_entries(l@.bridge_listener) + vaults_entries(
                l@.chain_id,
                vs.take(i as int + 1),
            ));
        }
        i = i + 1;
    }
    proof {
        assert(vs.take(n as int) =~= vs);
    }
    r
}

/// Appends every entry of `tail` to `out`, in order.
#[verifier::loop_isolation(false)]
pub fn append_entries(out: &mut Vec<MetricEntry>, tail: Vec<MetricEntry>)
    ensures
        final(out)@ == old(out)@ + tail@,
{
    let ghost out0 = out@;
    let ghost tail0 = tail@;
    let mut tail = tail;
    while tail.len() > 0
        invariant
            out@ + tail@ == out0 + tail0,
        decreases tail.len(),
    {
        let e = tail.remove(0);
        out.push(e);
        proof {
            assert(out@ + tail@ =~= out0 + tail0);
        }
    }
    proof {
        assert(out@ =~= out@ + tail@);
    }
}

/// One (chain id, token) occurrence with its metadata.
pub struct TokenPair {
    pub chain_id: u32,
    pub token: Address,
    pub info: TokenInfo,
}

/// The mathematical image of one occurrence.
#[verifier::ext_equal]
pub struct TokenPairV {
    pub chain_id: u32,
    pub token: Address,
    pub info: TokenInfoV,
}

impl View for TokenPair {
    type V = TokenPairV;

    open spec fn view(&self) -> TokenPairV {
        TokenPairV { chain_id: self.chain_id, token: self.token, info: self.info@ }
    }
}

/// The images of a list of occurrences.
pub open spec fn pair_views(s: Seq<TokenPair>) -> Seq<TokenPairV> {
    s.map_values(|p: TokenPair| p@)
}

/// A token's identity: its network and address.
#[derive(Clone, Copy, PartialEq, Eq, Structural, Debug)]
pub struct TokenKey {
    pub chain_id: u32,
    pub token: Address,
}

/// The identity of one occurrence.
pub open spec fn key_of_pair(p: TokenPairV) -> TokenKey {
    TokenKey { chain_id: p.chain_id, token: p.token }
}

/// The token occurrences one listener contributes, in vault order.
pub open spec fn listener_pairs(l: ListenerV) -> Seq<TokenPairV> {
    l.vaults.map_values(
        |v: VaultListenerV| TokenPairV { chain_id: l.chain_id, token: v.token, info: v.token_info },
    )
}

/// The token occurrences of all listeners, in order.
pub open spec fn token_pairs(ls: Seq<ListenerV>) -> Seq<TokenPairV>
    decreases ls.len(),
{
    if ls.len() == 0 {
        Seq::empty()
    } else {
        token_pairs(ls.drop_last()) + listener_pairs(ls.last())
    }
}

/// The set of token identities among the occurrences.
pub open spec fn keys_of(pairs: Seq<TokenPairV>) -> Set<TokenKey>
    decreases pairs.len(),
{
    if pairs.len() == 0 {
        Set::empty()
    } else {
        keys_of(pairs.drop_last()).insert(key_of_pair(pairs.last()))
    }
}

/// The catalogue entry of one token: chain id and token labels, the
/// recorded group label if any, the symbol, and the decimal precision
/// as the value.
pub open spec fn token_entry(p: TokenPairV, groups: Seq<GroupEntryV>) -> EntryV {
    EntryV {
        name: "token_decimals"@,
        labels: seq![
            LabelV { key: "chain_id"@, value: dec_str(p.chain_id as int) },
            LabelV { key: "token"@, value: address_hex(p.token) },
        ] + (match group_of(groups, p.chain_id, p.token) {
            Option::Some(g) => seq![LabelV { key: "token_group"@, value: g }],
            Option::None => Seq::empty(),
        }) + seq![LabelV { key: "symbol"@, value: p.info.symbol }],
        value: dec_str(p.info.decimals as int),
    }
}

/// The catalogue of the occurrences not yet seen: one entry per
/// distinct token identity, first occurrence first.
pub open spec fn catalogue(
    pairs: Seq<TokenPairV>,
    seen: Set<TokenKey>,
    groups: Seq<GroupEntryV>,
) -> Seq<EntryV>
    decreases pairs.len(),
{
    if pairs.len() == 0 {
        Seq::empty()
    } else {
        let k = key_of_pair(pairs[0]);
        let rest = pairs.subrange(1, pairs.len() as int);
        if seen.contains(k) {
            catalogue(rest, seen, groups)
        } else {
            seq![token_entry(pairs[0], groups)] + catalogue(rest, seen.insert(k), groups)
        }
    }
}

/// Whether a token identity was already recorded.
fn key_seen(seen: &Vec<TokenKey>, key: TokenKey) -> (r: bool)
    ensures
        r == seen@.contains(key),
{
    let n = seen.len();
    let mut i: usize = 0;
    while i < n
        invariant
            0 <= i <= n == seen@.len(),
            forall|m: int| 0 <= m < i ==> seen@[m] != key,
        decreases n - i,
    {
        let e = seen[i];
        if e.chain_id == key.chain_id && e.token == key.token {
            proof {
                assert(seen@[i as int] == key);
            }
            return true;
        }
        i = i + 1;
    }
    false
}

impl InitializationContext {
    /// Builds one token's catalogue entry, looking its group label up
    /// in the recorded declarations.
    fn token_entry_exec(&self, p: &TokenPair) -> (r: MetricEntry)
        ensures
            r@ == token_entry(p@, self@.groups),
    {
        let mut labels: Vec<MetricLabel> = Vec::new();
        labels.push(mk_label("chain_id", u32_to_dec(p.chain_id)));
        labels.push(mk_label("token", p.token.to_hex()));
        match self.group_lookup(p.chain_id, p.token) {
            Some(g) => {
                labels.push(mk_label("token_group", g));
            },
            None => {},
        }
        labels.push(mk_label("symbol", p.info.symbol.clone()));
        let r = mk_entry("token_decimals", labels, u32_to_dec(p.info.decimals as u32));
        proof {
            assert(r@ =~~= token_entry(p@, self@.groups));
        }
        r
    }

    /// Builds the one-time token catalogue: for every distinct
    /// (chain id, token) pair observed across all vaults, one
    /// `token_decimals` entry carrying symbol, decimal precision and
    /// the recorded group label, in first-occurrence order.
    #[verifier::loop_isolation(false)]
    pub fn prepare_decimals_info(&self, listeners: &Vec<Listener>) -> (r: Vec<MetricEntry>)
        ensures
            entries_view(r@) == catalogue(
                token_pairs(listener_views(listeners@)),
                Set::empty(),
                self@.groups,
            ),
    {
        let ghost lv = listener_views(listeners@);
        let mut pairs: Vec<TokenPair> = Vec::new();
        let ln = listeners.len();
        let mut i: usize = 0;
        proof {
            assert(pair_views(pairs@) =~= token_pairs(lv.take(0)));
        }
        while i < ln
            invariant
                0 <= i <= ln,
                pair_views(pairs@) == token_pairs(lv.take(i as int)),
            decreases ln - i,
        {
            let l = &listeners[i];
            let vn = l.vaults.len();
            let mut j: usize = 0;
            proof {
                assert(lv[i as int] == listeners@[i as int]@);
                assert(listener_pairs(lv[i as int]).take(0) =~= Seq::<TokenPairV>::empty());
                assert(pair_views(pairs@) =~= token_pairs(lv.take(i as int)) + listener_pairs(
                    lv[i as int],
                ).take(0));
            }
            while j < vn
                invariant
                    0 <= j <= vn == l.vaults@.len(),
                    pair_views(pairs@) == token_pairs(lv.take(i as int)) + listener_pairs(
                        lv[i as int],
                    ).take(j as int),
                decreases vn - j,
            {
                let v = &l.vaults[j];
                let pr = TokenPair {
                    chain_id: l.chain_id,
                    token: v.token,
                    info: v.token_info.duplicate(),
                };
                proof {
                    assert(lv[i as int].vaults[j as int] == l.vaults@[j as int]@);
                    assert(listener_pairs(lv[i as int])[j as int] == pr@);
                }
                let ghost pv0 = pair_views(pairs@);
                pairs.push(pr);
                proof {
                    assert(pair_views(pairs@) =~= pv0.push(pr@));
                    assert(listener_pairs(lv[i as int]).take(j as int + 1) =~= listener_pairs(
                        lv[i as int],
                    ).take(j as int).push(listener_pairs(lv[i as int])[j as int]));
                    assert(pair_views(pairs@) =~= token_pairs(lv.take(i as int)) + listener_pairs(
                        lv[i as int],
                    ).take(j as int + 1));
                }
                j = j + 1;
            }
            proof {
                assert(listener_pairs(lv[i as int]).take(vn as int) =~= listener_pairs(
                    lv[i as int],
                ));
                assert(lv.take(i as int + 1).drop_last() =~= lv.take(i as int));
                assert(lv.take(i as int + 1).last() == lv[i as int]);
                assert(pair_views(pairs@) =~= token_pairs(lv.take(i as int + 1)));
            }
            i = i + 1;
        }
        proof {
            assert(lv.take(ln as int) =~= lv);
        }

        let ghost ap = pair_views(pairs@);
        let ghost groups = self@.groups;
        let m = pairs.len();
        let mut seen: Vec<TokenKey> = Vec::new();
        let mut out: Vec<MetricEntry> = Vec::new();
        let mut k: usize = 0;
        proof {
            assert(ap.take(0) =~= Seq::<TokenPairV>::empty());
            assert(ap.skip(0) =~= ap);
            assert(entries_view(out@) =~= Seq::<EntryV>::empty());
        }
        while k < m
            invariant
                0 <= k <= m == pairs@.len(),
                forall|q: TokenKey| seen@.contains(q) <==> keys_of(ap.take(k as int)).contains(q),
                entries_view(out@) + catalogue(ap.skip(k as int), keys_of(ap.take(k as int)), groups)
                    == catalogue(ap, Set::empty(), groups),
            decreases m - k,
        {
            proof {
                assert(ap[k as int] == pairs@[k as int]@);
                assert(ap.skip(k as int)[0] == ap[k as int]);
                assert(ap.skip(k as int).subrange(1, ap.skip(k as int).len() as int) =~= ap.skip(
                    k as int + 1,
                ));
                assert(ap.take(k as int + 1).drop_last() =~= ap.take(k as int));
                assert(ap.take(k as int + 1).last() == ap[k as int]);
            }
            let p = &pairs[k];
            let key = TokenKey { chain_id: p.chain_id, token: p.token };
            proof {
                assert(key == key_of_pair(ap[k as int]));
            }
            if !key_seen(&seen, key) {
                let ghost seen0 = seen@;
                seen.push(key);
                let e = self.token_entry_exec(p);
                let ghost out0 = entries_view(out@);
                out.push(e);
                proof {
                    assert(!keys_of(ap.take(k as int)).contains(key));
                    assert(keys_of(ap.take(k as int + 1)) =~= keys_of(ap.take(k as int)).insert(
                        key,
                    ));
                    assert(entries_view(out@) =~= out0.push(e@));
                    assert(catalogue(ap.skip(k as int), keys_of(ap.take(k as int)), groups)
                        =~= seq![e@] + catalogue(
                        ap.skip(k as int + 1),
                        keys_of(ap.take(k as int + 1)),
                        groups,
                    ));
                    assert(entries_view(out@) + catalogue(
                        ap.skip(k as int + 1),
                        keys_of(ap.take(k as int + 1)),
                        groups,
                    ) =~= catalogue(ap, Set::empty(), groups));
                    assert forall|q: TokenKey|
                        seen@.contains(q) <==> keys_of(ap.take(k as int + 1)).contains(q) by {
                        if q == key {
                            assert(seen@[seen@.len() - 1] == key);
                            assert(seen@.contains(key));
                        } else {
                            if seen@.contains(q) {
                                let w = choose|w: int| 0 <= w < seen@.len() && seen@[w] == q;
                                assert(seen0[w] == q);
                                assert(seen0.contains(q));
                            }
                            if seen0.contains(q) {
                                let w = choose|w: int| 0 <= w < seen0.len() && seen0[w] == q;
                                assert(seen@[w] == q);
                            }
                        }
                    }
                }
            } else {
                proof {
                    assert(keys_of(ap.take(k as int)).contains(key));
                    assert(keys_of(ap.take(k as int + 1)) =~= keys_of(ap.take(k as int)));
                    assert(catalogue(ap.skip(k as int), keys_of(ap.take(k as int)), groups)
                        =~= catalogue(ap.skip(k as int + 1), keys_of(ap.take(k as int + 1)), groups));
                }
            }
            k = k + 1;
        }
        proof {
            assert(ap.skip(m as int) =~= Seq::<TokenPairV>::empty());
            assert(entries_view(out@) + catalogue(
                ap.skip(m as int),
                keys_of(ap.take(m as int)),
                groups,
            ) =~= entries_view(out@));
        }
        out
    }
}

impl Service {
    /// Renders the current snapshot: the token catalogue first, then
    /// every listener's bridge and vault entries, in order.
    #[verifier::loop_isolation(false)]
    pub fn metrics(&self) -> (r: Vec<MetricEntry>)
        ensures
            entries_view(r@) == self@.token_decimals + all_entries(self@.listeners),
    {
        let mut r: Vec<MetricEntry> = Vec::new();
        let ghost td = entries_view(self.token_decimals@);
        let tn = self.token_decimals.len();
        let mut i: usize = 0;
        proof {
            assert(entries_view(r@) =~= td.take(0));
        }
        while i < tn
            invariant
                0 <= i <= tn == self.token_decimals@.len(),
                entries_view(r@) == td.take(i as int),
            decreases tn - i,
        {
            r.push(self.token_decimals[i].duplicate());
            proof {
                assert(entries_view(r@) =~= td.take(i as int + 1));
            }
            i = i + 1;
        }
        proof {
            assert(td.take(tn as int) =~= td);
        }

        let ghost lv = listener_views(self.listeners@);
        let ln = self.listeners.len();
        let mut j: usize = 0;
        proof {
            assert(all_entries(lv.take(0)) =~= Seq::<EntryV>::empty());
            assert(entries_view(r@) =~= td + all_entries(lv.take(0)));
        }
        while j < ln
            invariant
                0 <= j <= ln == self.listeners@.len(),
                entries_view(r@) == td + all_entries(lv.take(j as int)),
            decreases ln - j,
        {
            let es = render_listener_entries(&self.listeners[j]);
            let ghost r_before = r@;
            let ghost es_v = es@;
            append_entries(&mut r, es);
            proof {
                assert(lv.take(j as int + 1).drop_last() =~= lv.take(j as int));
                assert(lv.take(j as int + 1).last() == lv[j as int]);
                assert(lv[j as int] == self.listeners@[j as int]@);
                assert(entries_view(r_before + es_v) =~= entries_view(r_before) + entries_view(
                    es_v,
                ));
                assert(entries_view(r@) =~= td + all_entries(lv.take(j as int + 1)));
            }
            j = j + 1;
        }
        proof {
            assert(lv.take(ln as int) =~= lv);
        }
        r
    }
}

} // verus!
