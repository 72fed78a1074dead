//! Startup admission registry.
//!
//! During the concurrent discovery phase every vault registration and
//! every token-group declaration passes through this structure, which
//! rejects duplicate vault keys across networks, reconciles a token's
//! group label wherever the token appears, and admits at most one
//! bridge proxy.  After startup it is only read.
//!
//! A single bridge proxy is admitted process-wide, across all
//! networks, which is the stricter of the two readings of the bridge
//! invariant; callers that want one bridge per network can use one
//! registry per network.

use vstd::prelude::*;
use crate::address::Address;

verus! {

/// The key under which a vault is registered: its network and address.
#[derive(Clone, Copy, PartialEq, Eq, Structural, Debug)]
pub struct VaultKey {
    pub chain_id: u32,
    pub address: Address,
}

/// A fatal startup error raised by the registry.
#[derive(Clone, Copy, PartialEq, Eq, Structural, Debug)]
pub enum RegistryError {
    /// A second bridge proxy was declared.
    DuplicateBridge,
    /// The same (chain id, vault address) pair was registered twice.
    DuplicateVault,
    /// The same (chain id, token address) pair was given two distinct
    /// group labels.
    InconsistentGroup,
}

/// One recorded token-group declaration.
pub struct TokenGroupEntry {
    pub chain_id: u32,
    pub token: Address,
    pub group: String,
}

/// The mathematical image of one token-group declaration.
#[verifier::ext_equal]
pub struct GroupEntryV {
    pub chain_id: u32,
    pub token: Address,
    pub group: Seq<char>,
}

impl View for TokenGroupEntry {
    type V = GroupEntryV;

    open spec fn view(&self) -> GroupEntryV {
        GroupEntryV { chain_id: self.chain_id, token: self.token, group: self.group@ }
    }
}

/// The mathematical image of the registry.
#[verifier::ext_equal]
pub struct RegistryV {
    pub has_bridge: bool,
    pub vaults: Seq<VaultKey>,
    pub groups: Seq<GroupEntryV>,
}

/// The group label recorded for a token, if any: the most recent
/// matching declaration.
pub open spec fn group_of(s: Seq<GroupEntryV>, chain_id: u32, token: Address) -> Option<Seq<char>>
    decreases s.len(),
{
    if s.len() == 0 {
        None
    } else if s.last().chain_id == chain_id && s.last().token == token {
        Some(s.last().group)
    } else {
        group_of(s.drop_last(), chain_id, token)
    }
}

/// Whether a declaration of `group` for the token is admissible: the
/// token is unseen, or was seen with the same label.
pub open spec fn group_admissible(
    s: Seq<GroupEntryV>,
    chain_id: u32,
    token: Address,
    group: Seq<char>,
) -> bool {
    group_of(s, chain_id, token) is None || group_of(s, chain_id, token) == Some(group)
}

/// Process-wide startup coordination structure.
pub struct InitializationContext {
    has_bridge_proxy: bool,
    unique_vaults: Vec<VaultKey>,
    token_groups: Vec<TokenGroupEntry>,
}

impl View for InitializationContext {
    type V = RegistryV;

    closed spec fn view(&self) -> RegistryV {
        RegistryV {
            has_bridge: self.has_bridge_proxy,
            vaults: self.unique_vaults@,
            groups: self.token_groups@.map_values(|e: TokenGroupEntry| e@),
        }
    }
}

impl InitializationContext {
    /// An empty registry: nothing admitted yet.
    pub fn new() -> (r: InitializationContext)
        ensures
            !r@.has_bridge,
            r@.vaults == Seq::<VaultKey>::empty(),
            r@.groups == Seq::<GroupEntryV>::empty(),
    {
        let r = InitializationContext {
            has_bridge_proxy: false,
            unique_vaults: Vec::new(),
            token_groups: Vec::new(),
        };
        proof {
            assert(r@.vaults =~= Seq::<VaultKey>::empty());
            assert(r@.groups =~= Seq::<GroupEntryV>::empty());
        }
        r
    }

    /// Whether a vault key was already registered.
    fn contains_vault(&self, key: VaultKey) -> (r: bool)
        ensures
            r == self@.vaults.contains(key),
    {
        let n = self.unique_vaults.len();
        let mut i: usize = 0;
        while i < n
            invariant
                0 <= i <= n == self.unique_vaults@.len(),
                forall|m: int| 0 <= m < i ==> self.unique_vaults@[m] != key,
            decreases n - i,
        {
            let e = self.unique_vaults[i];
            if e.chain_id == key.chain_id && e.address == key.address {
                proof {
                    assert(self.unique_vaults@[i as int] == key);
                }
                return true;
            }
            i = i + 1;
        }
        false
    }

    /// Looks up the group label recorded for a token.
    pub fn group_lookup(&self, chain_id: u32, token: Address) -> (r: Option<String>)
        ensures
            r is Some <==> group_of(self@.groups, chain_id, token) is Some,
            r is Some ==> group_of(self@.groups, chain_id, token) == Some(r.unwrap()@),
    {
        let ghost gs = self@.groups;
        let n = self.token_groups.len();
        proof {
            assert(gs.take(n as int) =~= gs);
        }
        let mut i: usize = n;
        while i > 0
            invariant
                0 <= i <= n == self.token_groups@.len(),
                gs == self@.groups,
                gs.len() == n,
                group_of(gs.take(i as int), chain_id, token) == group_of(gs, chain_id, token),
            decreases i,
        {
            proof {
                assert(gs.take(i as int).drop_last() =~= gs.take(i as int - 1));
                assert(gs.take(i as int).last() == gs[i as int - 1]);
                assert(gs[i as int - 1] == self.token_groups@[i as int - 1]@);
            }
            let e = &self.token_groups[i - 1];
            if e.chain_id == chain_id && e.token == token {
                return Some(e.group.clone());
            }
            i = i - 1;
        }
        proof {
            assert(gs.take(0) =~= Seq::<GroupEntryV>::empty());
        }
        None
    }

    /// Admits the sole bridge proxy; a second call fails.
    pub fn set_has_bridge_proxy(&mut self) -> (r: Result<(), RegistryError>)
        ensures
            r == (if !old(self)@.has_bridge {
                Ok::<(), RegistryError>(())
            } else {
                Err::<(), RegistryError>(RegistryError::DuplicateBridge)
            }),
            final(self)@.has_bridge,
            final(self)@.vaults == old(self)@.vaults,
            final(self)@.groups == old(self)@.groups,
    {
        let was = self.has_bridge_proxy;
        self.has_bridge_proxy = true;
        if !was {
            Ok(())
        } else {
            Err(RegistryError::DuplicateBridge)
        }
    }

    /// Registers a vault under its network; fails exactly when the same
    /// (chain id, vault address) pair was registered before.
    pub fn add_vault(&mut self, chain_id: u32, vault: Address) -> (r: Result<(), RegistryError>)
        ensures
            r.is_ok() <==> !old(self)@.vaults.contains(VaultKey { chain_id, address: vault }),
            r.is_ok() ==> final(self)@.vaults == old(self)@.vaults.push(
                VaultKey { chain_id, address: vault },
            ),
            !r.is_ok() ==> final(self)@.vaults == old(self)@.vaults && r == Err::<(),
                RegistryError,
            >(RegistryError::DuplicateVault),
            final(self)@.has_bridge == old(self)@.has_bridge,
            final(self)@.groups == old(self)@.groups,
    {
        let key = VaultKey { chain_id, address: vault };
        if self.contains_vault(key) {
            return Err(RegistryError::DuplicateVault);
        }
        self.unique_vaults.push(key);
        Ok(())
    }

    /// Declares a token's group label; an unseen token is recorded, a
    /// repeated equal label succeeds without change, and a different
    /// label for a seen token fails.
    pub fn add_token_group(&mut self, chain_id: u32, token: Address, group: String) -> (r: Result<
        (),
        RegistryError,
    >)
        ensures
            r.is_ok() <==> group_admissible(old(self)@.groups, chain_id, token, group@),
            !r.is_ok() ==> r == Err::<(), RegistryError>(RegistryError::InconsistentGroup),
            group_of(old(self)@.groups, chain_id, token) is None ==> final(self)@.groups == old(
                self,
            )@.groups.push(GroupEntryV { chain_id, token, group: group@ }),
            group_of(old(self)@.groups, chain_id, token) is Some ==> final(self)@.groups == old(
                self,
            )@.groups,
            final(self)@.has_bridge == old(self)@.has_bridge,
            final(self)@.vaults == old(self)@.vaults,
    {
        let ghost gs = self@.groups;
        match self.group_lookup(chain_id, token) {
            None => {
                let ghost gv = group@;
                self.token_groups.push(TokenGroupEntry { chain_id, token, group });
                proof {
                    assert(self@.groups =~= gs.push(GroupEntryV { chain_id, token, group: gv }));
                }
                Ok(())
            },
            Some(g) => {
                if g.eq(&group) {
                    Ok(())
                } else {
                    Err(RegistryError::InconsistentGroup)
                }
            },
        }
    }
}

impl RegistryError {
    /// The error's message text, as startup reports it.
    pub fn message(&self) -> (r: String)
        ensures
            *self is DuplicateBridge ==> r@ == "Duplicate bridge proxy"@,
            *self is DuplicateVault ==> r@ == "Duplicate vault entry"@,
            *self is InconsistentGroup ==> r@ == "Inconsistent token group"@,
    {
        match self {
            RegistryError::DuplicateBridge => ("Duplicate bridge proxy").to_owned(),
            RegistryError::DuplicateVault => ("Duplicate vault entry").to_owned(),
            RegistryError::InconsistentGroup => ("Inconsistent token group").to_owned(),
        }
    }
}

/// Registering the same vault key twice fails exactly the second time:
/// a key absent from the registry is admitted, and the registry that
/// results refuses that same key.
pub proof fn lemma_register_vault_twice(s: Seq<VaultKey>, k: VaultKey)
    requires
        !s.contains(k),
    ensures
        s.push(k).contains(k),
{
    assert(s.push(k)[s.len() as int] == k);
}

/// A token's first group declaration is recorded, after which the very
/// same label is admitted again (idempotently), while any distinct
/// label is refused.
pub proof fn lemma_group_label_reconciliation(
    s: Seq<GroupEntryV>,
    chain_id: u32,
    token: Address,
    g: Seq<char>,
    g2: Seq<char>,
)
    requires
        group_of(s, chain_id, token) is None,
        g2 != g,
    ensures
        group_of(s.push(GroupEntryV { chain_id, token, group: g }), chain_id, token) == Some(g),
        group_admissible(s.push(GroupEntryV { chain_id, token, group: g }), chain_id, token, g),
        !group_admissible(s.push(GroupEntryV { chain_id, token, group: g }), chain_id, token, g2),
{
    let t = s.push(GroupEntryV { chain_id, token, group: g });
    assert(t.last() == GroupEntryV { chain_id, token, group: g });
}

} // verus!
