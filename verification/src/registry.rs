//! Registry of pluggable auction handlers, keyed by handler address, with
//! a system-wide uniqueness index on the handler's version tag (`code_id`):
//! two different registrations can never claim the same version.

use vstd::prelude::*;
use crate::error::ContractError;
use crate::state::{AuctionContract, AuctionContractKey};
use crate::types::Addr;

verus! {

/// Hard cap on how many registry entries one listing query returns.
pub const MAX_REGISTRY_PAGE: usize = 30;

pub open spec fn registry_seq_sorted(s: Seq<(AuctionContractKey, AuctionContract)>) -> bool {
    forall|i: int, j: int| 0 <= i < j < s.len() ==> s[i].0 < s[j].0
}

pub open spec fn registry_seq_contains_key(
    s: Seq<(AuctionContractKey, AuctionContract)>,
    k: AuctionContractKey,
) -> bool {
    exists|i: int| 0 <= i < s.len() && s[i].0 == k
}

pub open spec fn registry_seq_index_of(
    s: Seq<(AuctionContractKey, AuctionContract)>,
    k: AuctionContractKey,
) -> int {
    choose|i: int| 0 <= i < s.len() && s[i].0 == k
}

pub open spec fn registry_seq_get(
    s: Seq<(AuctionContractKey, AuctionContract)>,
    k: AuctionContractKey,
) -> AuctionContract {
    s[registry_seq_index_of(s, k)].1
}

/// In a sorted sequence every key occurs at most once.
pub proof fn lemma_registry_key_unique(
    s: Seq<(AuctionContractKey, AuctionContract)>,
    i: int,
    j: int,
)
    requires
        registry_seq_sorted(s),
        0 <= i < s.len(),
        0 <= j < s.len(),
        s[i].0 == s[j].0,
    ensures
        i == j,
{
}

/// Registered auction handlers plus the uniqueness index on `code_id`.
pub struct AuctionContractStore {
    entries: Vec<(AuctionContractKey, AuctionContract)>,
}

impl AuctionContractStore {
    /// The underlying entries, in ascending key order.
    pub closed spec fn entry_seq(self) -> Seq<(AuctionContractKey, AuctionContract)> {
        self.entries@
    }

    /// Well-formedness: ascending key order, entries agree with their key,
    /// and no two entries share a version tag.
    pub open spec fn wf(self) -> bool {
        &&& registry_seq_sorted(self.entry_seq())
        &&& forall|i: int|
            0 <= i < self.entry_seq().len() ==> (#[trigger] self.entry_seq()[i]).1.contract_address
                == self.entry_seq()[i].0
        &&& forall|i: int, j: int|
            0 <= i < self.entry_seq().len() && 0 <= j < self.entry_seq().len() && i != j
                ==> (#[trigger] self.entry_seq()[i]).1.code_id
                != (#[trigger] self.entry_seq()[j]).1.code_id
    }

    pub open spec fn contains_key(self, k: AuctionContractKey) -> bool {
        registry_seq_contains_key(self.entry_seq(), k)
    }

    pub open spec fn spec_get(self, k: AuctionContractKey) -> AuctionContract {
        registry_seq_get(self.entry_seq(), k)
    }

    /// The registry as a mathematical map.
    pub open spec fn as_map(self) -> Map<AuctionContractKey, AuctionContract> {
        Map::new(|k: AuctionContractKey| self.contains_key(k), |k: AuctionContractKey| self.spec_get(k))
    }

    /// Whether some entry other than the one at `except` already claims
    /// this version tag.
    pub open spec fn code_id_taken_by_other(self, code_id: u32, except: AuctionContractKey) -> bool {
        exists|i: int|
            0 <= i < self.entry_seq().len() && (#[trigger] self.entry_seq()[i]).1.code_id == code_id
                && self.entry_seq()[i].0 != except
    }

    pub fn new() -> (r: AuctionContractStore)
        ensures
            r.wf(),
            r.as_map() == Map::<AuctionContractKey, AuctionContract>::empty(),
            r.entry_seq() == Seq::<(AuctionContractKey, AuctionContract)>::empty(),
    {
        let r = AuctionContractStore { entries: Vec::new() };
        proof {
            assert(r.entry_seq() =~= Seq::<(AuctionContractKey, AuctionContract)>::empty());
            assert(r.as_map() =~= Map::<AuctionContractKey, AuctionContract>::empty());
        }
        r
    }

    /// Look a handler up by address.
    #[verifier::loop_isolation(false)]
    pub fn get(&self, key: AuctionContractKey) -> (r: Option<&AuctionContract>)
        requires
            self.wf(),
        ensures
            match r {
                Some(c) => self.contains_key(key) && *c == self.spec_get(key),
                None => !self.contains_key(key),
            },
    {
        let n = self.entries.len();
        let mut i: usize = 0;
        while i < n
            invariant
                0 <= i <= n,
                forall|j: int| 0 <= j < i ==> (#[trigger] self.entry_seq()[j]).0 != key,
            decreases n - i,
        {
            if self.entries[i].0 == key {
                proof {
                    let w = registry_seq_index_of(self.entry_seq(), key);
                    assert(self.entry_seq()[i as int].0 == key);
                    lemma_registry_key_unique(self.entry_seq(), w, i as int);
                }
                return Some(&self.entries[i].1);
            }
            i = i + 1;
        }
        None
    }

    /// Register a handler, or update the registration at its address.
    /// Refused when a different registration already claims the same
    /// version tag.
    #[verifier::loop_isolation(false)]
    pub fn save(&mut self, key: AuctionContractKey, contract: AuctionContract) -> (r: Result<
        (),
        ContractError,
    >)
        requires
            old(self).wf(),
            contract.contract_address == key,
        ensures
            r is Ok <==> !old(self).code_id_taken_by_other(contract.code_id, key),
            r is Ok ==> final(self).as_map() == old(self).as_map().insert(key, contract),
            r is Err ==> *final(self) == *old(self) && (r matches Err(e)
                && e is AlreadyExists),
            final(self).wf(),
    {
        let ghost s0 = self.entry_seq();
        let n = self.entries.len();

        // The uniqueness index: refuse a version tag any other entry holds.
        let mut j: usize = 0;
        while j < n
            invariant
                0 <= j <= n,
                forall|t: int|
                    0 <= t < j ==> !((#[trigger] s0[t]).1.code_id == contract.code_id && s0[t].0
                        != key),
            decreases n - j,
        {
            let e = &self.entries[j];
            if e.1.code_id == contract.code_id && e.0 != key {
                return Err(ContractError::AlreadyExists {});
            }
            j = j + 1;
        }

        let mut i: usize = 0;
        while i < n && self.entries[i].0 < key
            invariant
                0 <= i <= n,
                forall|t: int| 0 <= t < i ==> (#[trigger] s0[t]).0 < key,
            decreases n - i,
        {
            i = i + 1;
        }
        if i < n && self.entries[i].0 == key {
            self.entries.set(i, (key, contract));
            proof {
                let s1 = self.entry_seq();
                assert(s1 =~= s0.update(i as int, (key, contract)));
                assert(s0[i as int].0 == key);
                assert forall|k: AuctionContractKey| #[trigger]
                    registry_seq_contains_key(s1, k) implies k == key || registry_seq_contains_key(
                    s0,
                    k,
                ) by {
                    let w = choose|w: int| 0 <= w < s1.len() && s1[w].0 == k;
                    if w != i {
                        assert(s0[w].0 == k);
                    }
                }
                assert forall|k: AuctionContractKey|
                    registry_seq_contains_key(s0, k) implies #[trigger] registry_seq_contains_key(
                    s1,
                    k,
                ) by {
                    let w = choose|w: int| 0 <= w < s0.len() && s0[w].0 == k;
                    assert(s1[w].0 == k);
                }
                assert forall|k: AuctionContractKey|
                    registry_seq_contains_key(s1, k) && k != key implies registry_seq_get(s1, k)
                    == registry_seq_get(s0, k) by {
                    let w1 = registry_seq_index_of(s1, k);
                    assert(0 <= w1 < s1.len() && s1[w1].0 == k);
                    assert(w1 != i);
                    assert(s0[w1].0 == k);
                    let w0 = registry_seq_index_of(s0, k);
                    assert(0 <= w0 < s0.len() && s0[w0].0 == k);
                    lemma_registry_key_unique(s0, w0, w1);
                }
                assert(registry_seq_get(s1, key) == contract) by {
                    let w = registry_seq_index_of(s1, key);
                    assert(s1[i as int].0 == key);
                    lemma_registry_key_unique(s1, w, i as int);
                }
                assert(self.as_map() =~~= old(self).as_map().insert(key, contract));
            }
            Ok(())
        } else {
            self.entries.insert(i, (key, contract));
            proof {
                let s1 = self.entry_seq();
                assert(s1 == s0.insert(i as int, (key, contract)));
                assert forall|t: int| 0 <= t < s1.len() implies (if t < i {
                    s1[t] == s0[t]
                } else if t == i {
                    s1[t] == (key, contract)
                } else {
                    s1[t] == s0[t - 1]
                }) by {
                    assert(s1 =~= s0.subrange(0, i as int).push((key, contract)) + s0.subrange(
                        i as int,
                        s0.len() as int,
                    ));
                }
                assert forall|t: int| i <= t < s0.len() implies key < (#[trigger] s0[t]).0 by {
                    assert(!(s0[i as int].0 < key));
                    assert(s0[i as int].0 != key);
                    if t > i {
                        assert(s0[i as int].0 < s0[t].0);
                    }
                }
                assert(registry_seq_sorted(s1));
                assert forall|k: AuctionContractKey| #[trigger]
                    registry_seq_contains_key(s1, k) implies k == key || registry_seq_contains_key(
                    s0,
                    k,
                ) by {
                    let w = choose|w: int| 0 <= w < s1.len() && s1[w].0 == k;
                    if w < i {
                        assert(s0[w].0 == k);
                    } else if w > i {
                        assert(s0[w - 1].0 == k);
                    }
                }
                assert forall|k: AuctionContractKey|
                    registry_seq_contains_key(s0, k) implies #[trigger] registry_seq_contains_key(
                    s1,
                    k,
                ) by {
                    let w = choose|w: int| 0 <= w < s0.len() && s0[w].0 == k;
                    if w < i {
                        assert(s1[w].0 == k);
                    } else {
                        assert(s1[w + 1].0 == k);
                    }
                }
                assert forall|k: AuctionContractKey|
                    registry_seq_contains_key(s1, k) && k != key implies registry_seq_get(s1, k)
                    == registry_seq_get(s0, k) by {
                    let w1 = registry_seq_index_of(s1, k);
                    assert(0 <= w1 < s1.len() && s1[w1].0 == k);
                    assert(w1 != i);
                    let v = if w1 < i {
                        w1
                    } else {
                        w1 - 1
                    };
                    assert(s0[v].0 == k);
                    let w0 = registry_seq_index_of(s0, k);
                    assert(0 <= w0 < s0.len() && s0[w0].0 == k);
                    lemma_registry_key_unique(s0, w0, v);
                    assert(s1[w1].1 == s0[v].1);
                }
                assert(registry_seq_contains_key(s1, key)) by {
                    assert(s1[i as int].0 == key);
                }
                assert(registry_seq_get(s1, key) == contract) by {
                    let w = registry_seq_index_of(s1, key);
                    assert(s1[i as int].0 == key);
                    lemma_registry_key_unique(s1, w, i as int);
                }
                assert(self.as_map() =~~= old(self).as_map().insert(key, contract));
            }
            Ok(())
        }
    }

    /// Drop the registration at `key` if present; absent keys are a no-op.
    #[verifier::loop_isolation(false)]
    pub fn remove(&mut self, key: AuctionContractKey)
        requires
            old(self).wf(),
        ensures
            final(self).wf(),
            final(self).as_map() == old(self).as_map().remove(key),
    {
        let ghost s0 = self.entry_seq();
        let n = self.entries.len();
        let mut i: usize = 0;
        while i < n
            invariant
                0 <= i <= n,
                self.entry_seq() == s0,
                forall|j: int| 0 <= j < i ==> (#[trigger] self.entry_seq()[j]).0 != key,
            decreases n - i,
        {
            if self.entries[i].0 == key {
                self.entries.remove(i);
                proof {
                    let s1 = self.entry_seq();
                    assert(s1 == s0.remove(i as int));
                    assert forall|j: int| 0 <= j < s1.len() implies (if j < i {
                        s1[j] == s0[j]
                    } else {
                        s1[j] == s0[j + 1]
                    }) by {
                        assert(s1 =~= s0.subrange(0, i as int) + s0.subrange(
                            i + 1,
                            s0.len() as int,
                        ));
                    }
                    assert forall|k: AuctionContractKey| #[trigger]
                        registry_seq_contains_key(s1, k) implies registry_seq_contains_key(s0, k)
                        && k != key by {
                        let w = choose|w: int| 0 <= w < s1.len() && s1[w].0 == k;
                        let v = if w < i {
                            w
                        } else {
                            w + 1
                        };
                        assert(s0[v].0 == k);
                        if k == key {
                            lemma_registry_key_unique(s0, v, i as int);
                        }
                    }
                    assert forall|k: AuctionContractKey|
                        registry_seq_contains_key(s0, k) && k != key implies #[trigger]
                    registry_seq_contains_key(s1, k) by {
                        let w = choose|w: int| 0 <= w < s0.len() && s0[w].0 == k;
                        assert(w != i);
                        if w < i {
                            assert(s1[w].0 == k);
                        } else {
                            assert(s1[w - 1].0 == k);
                        }
                    }
                    assert forall|k: AuctionContractKey| #[trigger]
                        registry_seq_contains_key(s1, k) implies registry_seq_get(s1, k)
                        == registry_seq_get(s0, k) by {
                        let w1 = registry_seq_index_of(s1, k);
                        assert(0 <= w1 < s1.len() && s1[w1].0 == k);
                        let v = if w1 < i {
                            w1
                        } else {
                            w1 + 1
                        };
                        assert(s0[v].0 == k);
                        let w0 = registry_seq_index_of(s0, k);
                        assert(0 <= w0 < s0.len() && s0[w0].0 == k);
                        lemma_registry_key_unique(s0, w0, v);
                        assert(s1[w1].1 == s0[v].1);
                    }
                    assert(self.as_map() =~~= old(self).as_map().remove(key));
                }
                return ;
            }
            i = i + 1;
        }
        proof {
            assert(!registry_seq_contains_key(s0, key));
            assert(self.as_map() =~~= old(self).as_map().remove(key));
        }
    }

    /// The registered handler addresses, in ascending order, capped at
    /// `MAX_REGISTRY_PAGE`.
    #[verifier::loop_isolation(false)]
    pub fn keys_page(&self) -> (r: Vec<Addr>)
        requires
            self.wf(),
        ensures
            r@.len() == if self.entry_seq().len() <= MAX_REGISTRY_PAGE {
                self.entry_seq().len() as int
            } else {
                MAX_REGISTRY_PAGE as int
            },
            forall|j: int| 0 <= j < r@.len() ==> r@[j] == (#[trigger] self.entry_seq()[j]).0,
    {
        let n = self.entries.len();
        let mut r: Vec<Addr> = Vec::new();
        let mut i: usize = 0;
        while i < n && r.len() < MAX_REGISTRY_PAGE
            invariant
                0 <= i <= n,
                r@.len() == i,
                forall|j: int| 0 <= j < i ==> r@[j] == (#[trigger] self.entry_seq()[j]).0,
                i <= MAX_REGISTRY_PAGE,
            decreases n - i,
        {
            r.push(self.entries[i].0);
            i = i + 1;
        }
        r
    }
}

/// Fresh, empty registry.
pub fn auction_contracts() -> (r: AuctionContractStore)
    ensures
        r.wf(),
        r.as_map() == Map::<AuctionContractKey, AuctionContract>::empty(),
        r.entry_seq() == Seq::<(AuctionContractKey, AuctionContract)>::empty(),
{
    AuctionContractStore::new()
}

} // verus!
