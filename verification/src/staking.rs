//! The local staking module: receives stake forwarded by the vault and
//! isolates each owner's at-risk funds in a per-owner proxy sub-account,
//! instantiated lazily on the first stake and reused forever after. The
//! proxy alone may release its funds back through this module to the vault.

use vstd::prelude::*;

use crate::coin::Coin;
use crate::decimal::Decimal;
use crate::error::ContractError;

verus! {

/// The module's configuration, fixed at instantiation.
#[derive(Debug, Clone, PartialEq, Eq)]
pub struct StakingConfig {
    /// The staking denom.
    pub denom: String,
    /// The code the lazily instantiated proxies run.
    pub proxy_code_id: u64,
    /// The worst-case slashing rate this module may report.
    pub max_slashing: Decimal,
    /// The vault that owns this module; the only caller allowed to forward
    /// stake.
    pub vault: String,
}

/// One owner's proxy sub-account: its handle and the funds delegated
/// through it.
#[derive(Debug, Clone, PartialEq, Eq)]
pub struct ProxyRecord {
    pub owner: String,
    pub proxy: u64,
    pub balance: u128,
}

/// What the config query returns.
#[derive(Debug, Clone, PartialEq, Eq)]
pub struct ConfigResponse {
    pub denom: String,
    pub proxy_code_id: u64,
    pub max_slashing: Decimal,
}

/// What the max-slash query returns.
#[derive(Debug, Clone, Copy, PartialEq, Eq, Structural)]
pub struct MaxSlashResponse {
    pub max_slash: Decimal,
}

/// The proxy recorded for an owner.
#[derive(Debug, Clone, PartialEq, Eq)]
pub struct ProxyByOwnerResponse {
    pub proxy: u64,
}

/// The owner recorded for a proxy.
#[derive(Debug, Clone, PartialEq, Eq)]
pub struct OwnerByProxyResponse {
    pub owner: String,
}

/// What a received stake routes to: the owner's proxy (freshly
/// instantiated or reused), the validator to delegate to, and the amount.
#[derive(Debug, Clone, PartialEq, Eq)]
pub struct StakeRouting {
    pub proxy: u64,
    pub created: bool,
    pub validator: String,
    pub amount: u128,
}

/// What a proxy's release hands on: return `amount` to the vault for
/// `owner` and shrink the lien.
#[derive(Debug, Clone, PartialEq, Eq)]
pub struct ReleaseInstruction {
    pub owner: String,
    pub amount: u128,
}

/// The record for `owner`, if a proxy was ever instantiated for them.
pub open spec fn proxy_for(ps: Seq<ProxyRecord>, owner: Seq<char>) -> Option<ProxyRecord>
    decreases ps.len(),
{
    if ps.len() == 0 {
        None
    } else if ps[0].owner@ == owner {
        Some(ps[0])
    } else {
        proxy_for(ps.drop_first(), owner)
    }
}

/// The record behind a proxy handle.
pub open spec fn record_for_handle(ps: Seq<ProxyRecord>, handle: u64) -> Option<ProxyRecord>
    decreases ps.len(),
{
    if ps.len() == 0 {
        None
    } else if ps[0].proxy == handle {
        Some(ps[0])
    } else {
        record_for_handle(ps.drop_first(), handle)
    }
}

/// A first-match scan by owner pins `proxy_for`.
pub proof fn lemma_proxy_lookup(ps: Seq<ProxyRecord>, owner: Seq<char>, idx: int)
    requires
        0 <= idx <= ps.len(),
        forall|j: int| 0 <= j < idx ==> ps[j].owner@ != owner,
        idx < ps.len() ==> ps[idx].owner@ == owner,
    ensures
        proxy_for(ps, owner) == if idx < ps.len() {
            Some(ps[idx])
        } else {
            None::<ProxyRecord>
        },
    decreases ps.len(),
{
    if ps.len() > 0 && idx > 0 {
        lemma_proxy_lookup(ps.drop_first(), owner, idx - 1);
    }
}

/// A first-match scan by handle pins `record_for_handle`.
pub proof fn lemma_handle_lookup(ps: Seq<ProxyRecord>, handle: u64, idx: int)
    requires
        0 <= idx <= ps.len(),
        forall|j: int| 0 <= j < idx ==> ps[j].proxy != handle,
        idx < ps.len() ==> ps[idx].proxy == handle,
    ensures
        record_for_handle(ps, handle) == if idx < ps.len() {
            Some(ps[idx])
        } else {
            None::<ProxyRecord>
        },
    decreases ps.len(),
{
    if ps.len() > 0 && idx > 0 {
        lemma_handle_lookup(ps.drop_first(), handle, idx - 1);
    }
}

/// Replacing the first record of an owner, keeping its owner and handle,
/// rewrites both lookups for exactly that record.
pub proof fn lemma_proxy_update(
    ps: Seq<ProxyRecord>,
    i: int,
    rec: ProxyRecord,
    owner: Seq<char>,
    handle: u64,
)
    requires
        0 <= i < ps.len(),
        rec.owner@ == ps[i].owner@,
        rec.proxy == ps[i].proxy,
        forall|j: int| 0 <= j < i ==> ps[j].owner@ != ps[i].owner@,
        forall|j: int| 0 <= j < i ==> ps[j].proxy != ps[i].proxy,
    ensures
        proxy_for(ps.update(i, rec), owner) == if owner == rec.owner@ {
            Some(rec)
        } else {
            proxy_for(ps, owner)
        },
        record_for_handle(ps.update(i, rec), handle) == if handle == rec.proxy {
            Some(rec)
        } else {
            record_for_handle(ps, handle)
        },
    decreases ps.len(),
{
    if i == 0 {
        assert(ps.update(0, rec).drop_first() =~= ps.drop_first());
    } else {
        assert(ps.update(i, rec).drop_first() =~= ps.drop_first().update(i - 1, rec));
        lemma_proxy_update(ps.drop_first(), i - 1, rec, owner, handle);
    }
}

/// Appending a record for a new owner under a new handle gives both
/// lookups exactly that record and changes no other reading.
pub proof fn lemma_proxy_push(ps: Seq<ProxyRecord>, rec: ProxyRecord, owner: Seq<char>, handle: u64)
    requires
        proxy_for(ps, rec.owner@) is None,
        record_for_handle(ps, rec.proxy) is None,
    ensures
        proxy_for(ps.push(rec), owner) == if owner == rec.owner@ {
            Some(rec)
        } else {
            proxy_for(ps, owner)
        },
        record_for_handle(ps.push(rec), handle) == if handle == rec.proxy {
            Some(rec)
        } else {
            record_for_handle(ps, handle)
        },
    decreases ps.len(),
{
    assert(ps.push(rec).len() == ps.len() + 1);
    if ps.len() == 0 {
        assert(ps.push(rec)[0] == rec);
        assert(ps.push(rec).drop_first() =~= Seq::<ProxyRecord>::empty());
        assert(proxy_for(Seq::<ProxyRecord>::empty(), owner) is None);
        assert(record_for_handle(Seq::<ProxyRecord>::empty(), handle) is None);
    } else {
        assert(ps.push(rec)[0] == ps[0]);
        assert(ps.push(rec).drop_first() =~= ps.drop_first().push(rec));
        lemma_proxy_push(ps.drop_first(), rec, owner, handle);
    }
}

/// The local staking module contract.
#[derive(Debug, Clone, PartialEq, Eq)]
pub struct NativeStakingContract {
    pub config: Option<StakingConfig>,
    pub proxies: Vec<ProxyRecord>,
    pub next_proxy: u64,
}

impl NativeStakingContract {
    /// Well-formed: one proxy per owner, one owner per handle, and handles
    /// are never reissued.
    pub open spec fn wf(&self) -> bool {
        &&& forall|i: int, j: int|
            0 <= i < j < self.proxies@.len() ==> self.proxies@[i].owner@ != self.proxies@[j].owner@
        &&& forall|i: int, j: int|
            0 <= i < j < self.proxies@.len() ==> self.proxies@[i].proxy != self.proxies@[j].proxy
        &&& forall|i: int|
            0 <= i < self.proxies@.len() ==> (#[trigger] self.proxies@[i]).proxy < self.next_proxy
    }

    /// A fresh, not yet instantiated module.
    pub fn new() -> (r: NativeStakingContract)
        ensures
            r.config is None,
            r.proxies@.len() == 0,
            r.next_proxy == 0,
            r.wf(),
    {
        NativeStakingContract { config: None, proxies: Vec::new(), next_proxy: 0 }
    }

    /// Set up the module: the staking denom, the proxies' code, and the
    /// worst-case slashing rate. The instantiating sender is the vault.
    pub fn instantiate(
        &mut self,
        sender: String,
        denom: String,
        proxy_code_id: u64,
        max_slashing: Decimal,
    ) -> (r: Result<(), ContractError>)
        requires
            old(self).wf(),
        ensures
            final(self).wf(),
            r == Ok::<(), ContractError>(()),
            final(self).proxies == old(self).proxies,
            final(self).next_proxy == old(self).next_proxy,
            final(self).config == Some(
                (StakingConfig { denom, proxy_code_id, max_slashing, vault: sender }),
            ),
    {
        self.config = Some(StakingConfig { denom, proxy_code_id, max_slashing, vault: sender });
        Ok(())
    }

    /// Read the configuration.
    pub fn config(&self) -> (r: Result<ConfigResponse, ContractError>)
        ensures
            self.config is None ==> (r matches Err(ContractError::Std(_))),
            self.config matches Some(c) ==> (r matches Ok(cr) && cr.denom@ == c.denom@
                && cr.proxy_code_id == c.proxy_code_id && cr.max_slashing == c.max_slashing),
    {
        match &self.config {
            None => Err(ContractError::Std("config not found".to_owned())),
            Some(c) => Ok(
                ConfigResponse {
                    denom: c.denom.clone(),
                    proxy_code_id: c.proxy_code_id,
                    max_slashing: c.max_slashing,
                },
            ),
        }
    }

    /// The worst case this module can slash: what the vault holds the lien
    /// bound against.
    pub fn max_slash(&self) -> (r: Result<MaxSlashResponse, ContractError>)
        ensures
            self.config is None ==> (r matches Err(ContractError::Std(_))),
            self.config matches Some(c) ==> r == Ok::<MaxSlashResponse, ContractError>(
                (MaxSlashResponse { max_slash: c.max_slashing }),
            ),
    {
        match &self.config {
            None => Err(ContractError::Std("config not found".to_owned())),
            Some(c) => Ok(MaxSlashResponse { max_slash: c.max_slashing }),
        }
    }

    /// First-match scan by owner.
    fn find_by_owner(&self, owner: &String) -> (idx: usize)
        ensures
            idx <= self.proxies@.len(),
            forall|j: int| 0 <= j < idx ==> self.proxies@[j].owner@ != owner@,
            idx < self.proxies@.len() ==> self.proxies@[idx as int].owner@ == owner@,
            proxy_for(self.proxies@, owner@) == if idx < self.proxies@.len() {
                Some(self.proxies@[idx as int])
            } else {
                None::<ProxyRecord>
            },
    {
        let n = self.proxies.len();
        let mut i: usize = 0;
        let mut idx: usize = n;
        while i < n && idx == n
            invariant
                i <= n,
                idx <= n,
                n == self.proxies@.len(),
                idx == n ==> forall|j: int| 0 <= j < i ==> self.proxies@[j].owner@ != owner@,
                idx < n ==> idx < i && self.proxies@[idx as int].owner@ == owner@ && forall|j: int|
                    0 <= j < idx ==> self.proxies@[j].owner@ != owner@,
            decreases n - i,
        {
            if self.proxies[i].owner == *owner {
                idx = i;
            }
            i += 1;
        }
        proof {
            lemma_proxy_lookup(self.proxies@, owner@, idx as int);
        }
        idx
    }

    /// First-match scan by proxy handle.
    fn find_by_handle(&self, handle: u64) -> (idx: usize)
        ensures
            idx <= self.proxies@.len(),
            forall|j: int| 0 <= j < idx ==> self.proxies@[j].proxy != handle,
            idx < self.proxies@.len() ==> self.proxies@[idx as int].proxy == handle,
            record_for_handle(self.proxies@, handle) == if idx < self.proxies@.len() {
                Some(self.proxies@[idx as int])
            } else {
                None::<ProxyRecord>
            },
    {
        let n = self.proxies.len();
        let mut i: usize = 0;
        let mut idx: usize = n;
        while i < n && idx == n
            invariant
                i <= n,
                idx <= n,
                n == self.proxies@.len(),
                idx == n ==> forall|j: int| 0 <= j < i ==> self.proxies@[j].proxy != handle,
                idx < n ==> idx < i && self.proxies@[idx as int].proxy == handle && forall|j: int|
                    0 <= j < idx ==> self.proxies@[j].proxy != handle,
            decreases n - i,
        {
            if self.proxies[i].proxy == handle {
                idx = i;
            }
            i += 1;
        }
        proof {
            lemma_handle_lookup(self.proxies@, handle, idx as int);
        }
        idx
    }

    /// The proxy recorded for `owner`; absent reads as a storage miss, as
    /// for any address never written.
    pub fn proxy_by_owner(&self, owner: &String) -> (r: Result<ProxyByOwnerResponse, ContractError>)
        ensures
            proxy_for(self.proxies@, owner@) is None ==> (r matches Err(ContractError::Std(_))),
            proxy_for(self.proxies@, owner@) matches Some(rec) ==> r == Ok::<
                ProxyByOwnerResponse,
                ContractError,
            >((ProxyByOwnerResponse { proxy: rec.proxy })),
    {
        let idx = self.find_by_owner(owner);
        if idx < self.proxies.len() {
            Ok(ProxyByOwnerResponse { proxy: self.proxies[idx].proxy })
        } else {
            Err(ContractError::Std("proxy not found".to_owned()))
        }
    }

    /// The owner recorded behind a proxy handle.
    pub fn owner_by_proxy(&self, proxy: u64) -> (r: Result<OwnerByProxyResponse, ContractError>)
        ensures
            record_for_handle(self.proxies@, proxy) is None ==> (r matches Err(
                ContractError::Std(_),
            )),
            record_for_handle(self.proxies@, proxy) matches Some(rec) ==> (r matches Ok(resp)
                && resp.owner@ == rec.owner@),
    {
        let idx = self.find_by_handle(proxy);
        if idx < self.proxies.len() {
            Ok(OwnerByProxyResponse { owner: self.proxies[idx].owner.clone() })
        } else {
            Err(ContractError::Std("owner not found".to_owned()))
        }
    }

    /// The funds currently held by a proxy.
    pub fn proxy_balance(&self, proxy: u64) -> (r: Result<u128, ContractError>)
        ensures
            record_for_handle(self.proxies@, proxy) is None ==> (r matches Err(
                ContractError::Std(_),
            )),
            record_for_handle(self.proxies@, proxy) matches Some(rec) ==> r == Ok::<
                u128,
                ContractError,
            >(rec.balance),
    {
        let idx = self.find_by_handle(proxy);
        if idx < self.proxies.len() {
            Ok(self.proxies[idx].balance)
        } else {
            Err(ContractError::Std("proxy not found".to_owned()))
        }
    }

    /// Receive stake the vault forwards on behalf of `owner`, to delegate
    /// to `validator`. Only the vault may call this, with exactly one coin
    /// of the staking denom attached. The first stake for an owner
    /// instantiates their proxy; later stakes route to the same proxy,
    /// whose balance accumulates.
    pub fn receive_stake(
        &mut self,
        sender: &String,
        owner: &String,
        validator: &String,
        funds: &Vec<Coin>,
    ) -> (r: Result<StakeRouting, ContractError>)
        requires
            old(self).wf(),
            old(self).next_proxy < u64::MAX,
            proxy_for(old(self).proxies@, owner@) matches Some(rec) ==> (funds@.len() == 1
                ==> rec.balance + funds@[0].amount <= u128::MAX),
        ensures
            final(self).wf(),
            final(self).config == old(self).config,
            final(self).next_proxy >= old(self).next_proxy,
            r is Err ==> *final(self) == *old(self),
            old(self).config is None ==> (r matches Err(ContractError::Std(_))),
            old(self).config matches Some(c) ==> ({
                if sender@ != c.vault@ {
                    r == Err::<StakeRouting, ContractError>(ContractError::Unauthorized)
                } else if funds@.len() != 1 {
                    r == Err::<StakeRouting, ContractError>(ContractError::Payment)
                } else if funds@[0].denom@ != c.denom@ {
                    (r matches Err(ContractError::WrongDenom(d)) && d@ == funds@[0].denom@)
                } else if funds@[0].amount == 0 {
                    r == Err::<StakeRouting, ContractError>(ContractError::Payment)
                } else {
                    let a = funds@[0].amount;
                    r matches Ok(routing) && routing.validator@ == validator@ && routing.amount == a
                        && (match proxy_for(old(self).proxies@, owner@) {
                        Some(rec) => routing.proxy == rec.proxy && !routing.created && proxy_for(
                            final(self).proxies@,
                            owner@,
                        ) == Some(
                            (ProxyRecord {
                                owner: rec.owner,
                                proxy: rec.proxy,
                                balance: (rec.balance + a) as u128,
                            }),
                        ) && final(self).next_proxy == old(self).next_proxy,
                        None => routing.proxy == old(self).next_proxy && routing.created
                            && (proxy_for(final(self).proxies@, owner@) matches Some(nrec)
                            && nrec.proxy == old(self).next_proxy && nrec.balance == a
                            && nrec.owner@ == owner@) && final(self).next_proxy == old(self).next_proxy + 1,
                    }) && (forall|o: Seq<char>|
                        o != owner@ ==> proxy_for(final(self).proxies@, o) == proxy_for(
                            old(self).proxies@,
                            o,
                        ))
                }
            }),
    {
        let vault_ok: bool;
        let denom_ok: bool;
        match &self.config {
            None => {
                return Err(ContractError::Std("config not found".to_owned()));
            },
            Some(c) => {
                vault_ok = *sender == c.vault;
                denom_ok = funds.len() == 1 && funds[0].denom == c.denom;
            },
        }
        if !vault_ok {
            return Err(ContractError::Unauthorized);
        }
        if funds.len() != 1 {
            return Err(ContractError::Payment);
        }
        if !denom_ok {
            return Err(ContractError::WrongDenom(funds[0].denom.clone()));
        }
        let amount = funds[0].amount;
        if amount == 0 {
            return Err(ContractError::Payment);
        }
        let ghost ps0 = self.proxies@;
        let idx = self.find_by_owner(owner);
        if idx < self.proxies.len() {
            let rec = ProxyRecord {
                owner: self.proxies[idx].owner.clone(),
                proxy: self.proxies[idx].proxy,
                balance: self.proxies[idx].balance + amount,
            };
            let handle = rec.proxy;
            self.proxies[idx] = rec;
            proof {
                assert forall|o: Seq<char>| o != owner@ implies #[trigger] proxy_for(
                    self.proxies@,
                    o,
                ) == proxy_for(ps0, o) by {
                    lemma_proxy_update(
                        ps0,
                        idx as int,
                        self.proxies@[idx as int],
                        o,
                        self.proxies@[idx as int].proxy,
                    );
                }
                lemma_proxy_update(
                    ps0,
                    idx as int,
                    self.proxies@[idx as int],
                    owner@,
                    self.proxies@[idx as int].proxy,
                );
                assert forall|i: int, j: int| 0 <= i < j < self.proxies@.len() implies
                    self.proxies@[i].owner@ != self.proxies@[j].owner@ && self.proxies@[i].proxy
                        != self.proxies@[j].proxy by {
                    assert(ps0[i].owner@ != ps0[j].owner@);
                    assert(ps0[i].proxy != ps0[j].proxy);
                }
            }
            Ok(StakeRouting { proxy: handle, created: false, validator: validator.clone(), amount })
        } else {
            let handle = self.next_proxy;
            let rec = ProxyRecord { owner: owner.clone(), proxy: handle, balance: amount };
            proof {
                lemma_handle_lookup(ps0, handle, ps0.len() as int);
            }
            self.proxies.push(rec);
            self.next_proxy = handle + 1;
            proof {
                assert forall|o: Seq<char>| o != owner@ implies #[trigger] proxy_for(
                    self.proxies@,
                    o,
                ) == proxy_for(ps0, o) by {
                    lemma_proxy_push(ps0, self.proxies@[ps0.len() as int], o, handle);
                }
                lemma_proxy_push(ps0, self.proxies@[ps0.len() as int], owner@, handle);
                assert forall|i: int, j: int| 0 <= i < j < self.proxies@.len() implies
                    self.proxies@[i].owner@ != self.proxies@[j].owner@ && self.proxies@[i].proxy
                        != self.proxies@[j].proxy by {
                    if j < ps0.len() {
                        assert(ps0[i].owner@ != ps0[j].owner@);
                        assert(ps0[i].proxy != ps0[j].proxy);
                    } else {
                        assert(!(ps0[i].owner@ == owner@));
                        assert(ps0[i].proxy < handle);
                    }
                }
            }
            Ok(StakeRouting { proxy: handle, created: true, validator: validator.clone(), amount })
        }
    }

    /// A proxy returns `amount` of its funds: callable only by a recorded
    /// proxy, for at most what it holds. Hands back the instruction to
    /// return the funds to the vault and shrink the owner's lien.
    pub fn release_proxy_stake(&mut self, caller: u64, amount: u128) -> (r: Result<
        ReleaseInstruction,
        ContractError,
    >)
        requires
            old(self).wf(),
        ensures
            final(self).wf(),
            final(self).config == old(self).config,
            final(self).next_proxy == old(self).next_proxy,
            r is Err ==> *final(self) == *old(self),
            record_for_handle(old(self).proxies@, caller) is None ==> r == Err::<
                ReleaseInstruction,
                ContractError,
            >(ContractError::Unauthorized),
            record_for_handle(old(self).proxies@, caller) matches Some(rec) ==> ({
                if amount > rec.balance {
                    r == Err::<ReleaseInstruction, ContractError>(ContractError::AccountingMismatch)
                } else {
                    (r matches Ok(instr) && instr.owner@ == rec.owner@ && instr.amount == amount)
                        && record_for_handle(final(self).proxies@, caller) == Some(
                        (ProxyRecord {
                            owner: rec.owner,
                            proxy: rec.proxy,
                            balance: (rec.balance - amount) as u128,
                        }),
                    ) && (forall|h: u64|
                        h != caller ==> record_for_handle(final(self).proxies@, h)
                            == record_for_handle(old(self).proxies@, h))
                }
            }),
    {
        let ghost ps0 = self.proxies@;
        let idx = self.find_by_handle(caller);
        if idx >= self.proxies.len() {
            return Err(ContractError::Unauthorized);
        }
        if amount > self.proxies[idx].balance {
            return Err(ContractError::AccountingMismatch);
        }
        let rec = ProxyRecord {
            owner: self.proxies[idx].owner.clone(),
            proxy: self.proxies[idx].proxy,
            balance: self.proxies[idx].balance - amount,
        };
        let owner_out = rec.owner.clone();
        self.proxies[idx] = rec;
        proof {
            assert forall|h: u64| h != caller implies #[trigger] record_for_handle(
                self.proxies@,
                h,
            ) == record_for_handle(ps0, h) by {
                lemma_proxy_update(
                    ps0,
                    idx as int,
                    self.proxies@[idx as int],
                    self.proxies@[idx as int].owner@,
                    h,
                );
            }
            lemma_proxy_update(
                ps0,
                idx as int,
                self.proxies@[idx as int],
                self.proxies@[idx as int].owner@,
                caller,
            );
            assert forall|i: int, j: int| 0 <= i < j < self.proxies@.len() implies
                self.proxies@[i].owner@ != self.proxies@[j].owner@ && self.proxies@[i].proxy
                    != self.proxies@[j].proxy by {
                assert(ps0[i].owner@ != ps0[j].owner@);
                assert(ps0[i].proxy != ps0[j].proxy);
            }
        }
        Ok(ReleaseInstruction { owner: owner_out, amount })
    }
}

} // verus!
