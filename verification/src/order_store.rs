//! Keyed table of standing offers with the two descending range scans the
//! query paths need: by target asset and by offerer.
//!
//! Entries are held in ascending key order (offerer, collection, token)
//! with no duplicate keys.  Offers of one user are therefore contiguous,
//! and both range scans walk the table from the top downward.

use vstd::prelude::*;
use crate::order_state::{
    nft_lt, order_key_before, order_key_lt, order_wf, Nft, OrderComponents, OrderKey, User,
};

verus! {

/// Hard cap on the number of results one range query may return,
/// whatever limit the caller asked for.
pub const MAX_OFFER_QUERY_LIMIT: usize = 30;

pub open spec fn order_seq_sorted(s: Seq<(OrderKey, OrderComponents)>) -> bool {
    forall|i: int, j: int|
        0 <= i < j < s.len() ==> order_key_lt(s[i].0, s[j].0)
}

pub open spec fn order_seq_contains_key(s: Seq<(OrderKey, OrderComponents)>, k: OrderKey) -> bool {
    exists|i: int| 0 <= i < s.len() && s[i].0 == k
}

pub open spec fn order_seq_index_of(s: Seq<(OrderKey, OrderComponents)>, k: OrderKey) -> int {
    choose|i: int| 0 <= i < s.len() && s[i].0 == k
}

pub open spec fn order_seq_get(s: Seq<(OrderKey, OrderComponents)>, k: OrderKey) -> OrderComponents {
    s[order_seq_index_of(s, k)].1
}

/// In a sorted sequence every key occurs at most once.
pub proof fn lemma_order_key_unique(s: Seq<(OrderKey, OrderComponents)>, i: int, j: int)
    requires
        order_seq_sorted(s),
        0 <= i < s.len(),
        0 <= j < s.len(),
        s[i].0 == s[j].0,
    ensures
        i == j,
{
    if i < j {
        assert(order_key_lt(s[i].0, s[j].0));
    }
    if j < i {
        assert(order_key_lt(s[j].0, s[i].0));
    }
}

/// The entries a descending range scan returns, highest key first.
pub open spec fn matching_orders_desc(
    s: Seq<(OrderKey, OrderComponents)>,
    pred: spec_fn((OrderKey, OrderComponents)) -> bool,
) -> Seq<(OrderKey, OrderComponents)>
    decreases s.len(),
{
    if s.len() == 0 {
        Seq::empty()
    } else {
        let rest = matching_orders_desc(s.drop_last(), pred);
        if pred(s.last()) {
            seq![s.last()] + rest
        } else {
            rest
        }
    }
}

pub proof fn lemma_matching_orders_desc_add(
    a: Seq<(OrderKey, OrderComponents)>,
    b: Seq<(OrderKey, OrderComponents)>,
    pred: spec_fn((OrderKey, OrderComponents)) -> bool,
)
    ensures
        matching_orders_desc(a + b, pred) == matching_orders_desc(b, pred) + matching_orders_desc(
            a,
            pred,
        ),
    decreases b.len(),
{
    if b.len() == 0 {
        assert(a + b =~= a);
        assert(matching_orders_desc(b, pred) =~= Seq::<(OrderKey, OrderComponents)>::empty());
        assert(matching_orders_desc(b, pred) + matching_orders_desc(a, pred)
            =~= matching_orders_desc(a, pred));
    } else {
        lemma_matching_orders_desc_add(a, b.drop_last(), pred);
        assert((a + b).drop_last() =~= a + b.drop_last());
        assert((a + b).last() == b.last());
        if pred(b.last()) {
            assert(seq![b.last()] + (matching_orders_desc(b.drop_last(), pred)
                + matching_orders_desc(a, pred)) =~= (seq![b.last()] + matching_orders_desc(
                b.drop_last(),
                pred,
            )) + matching_orders_desc(a, pred));
        }
    }
}

/// Result window of the by-asset query: offers on `nft`, strictly below
/// the cursor when one is given.
pub open spec fn nft_offers_pred(nft: Nft, start_after: Option<User>) -> spec_fn(
    (OrderKey, OrderComponents),
) -> bool {
    |e: (OrderKey, OrderComponents)|
        e.0.1 == nft && (match start_after {
            Some(u) => e.0.0 < u,
            None => true,
        })
}

/// Result window of the by-offerer query: offers of `user`, strictly below
/// the cursor when one is given.
pub open spec fn user_offers_pred(user: User, start_after: Option<Nft>) -> spec_fn(
    (OrderKey, OrderComponents),
) -> bool {
    |e: (OrderKey, OrderComponents)|
        e.0.0 == user && (match start_after {
            Some(nk) => nft_lt(e.0.1, nk),
            None => true,
        })
}

/// Keyed table of standing offers plus its derived range-scan views.
pub struct OrderStore {
    entries: Vec<(OrderKey, OrderComponents)>,
}

impl OrderStore {
    /// The underlying entries, in ascending key order.
    pub closed spec fn entry_seq(self) -> Seq<(OrderKey, OrderComponents)> {
        self.entries@
    }

    /// Well-formedness: ascending key order (hence unique keys), and every
    /// stored order is structurally valid for its key.
    pub open spec fn wf(self) -> bool {
        &&& order_seq_sorted(self.entry_seq())
        &&& forall|i: int|
            0 <= i < self.entry_seq().len() ==> order_wf(
                (#[trigger] self.entry_seq()[i]).0,
                self.entry_seq()[i].1,
            )
    }

    pub open spec fn contains_key(self, k: OrderKey) -> bool {
        order_seq_contains_key(self.entry_seq(), k)
    }

    pub open spec fn spec_get(self, k: OrderKey) -> OrderComponents {
        order_seq_get(self.entry_seq(), k)
    }

    /// The table as a mathematical map.
    pub open spec fn as_map(self) -> Map<OrderKey, OrderComponents> {
        Map::new(|k: OrderKey| self.contains_key(k), |k: OrderKey| self.spec_get(k))
    }

    pub fn new() -> (r: OrderStore)
        ensures
            r.wf(),
            r.as_map() == Map::<OrderKey, OrderComponents>::empty(),
            r.entry_seq() == Seq::<(OrderKey, OrderComponents)>::empty(),
    {
        let r = OrderStore { entries: Vec::new() };
        proof {
            assert(r.entry_seq() =~= Seq::<(OrderKey, OrderComponents)>::empty());
            assert(r.as_map() =~= Map::<OrderKey, OrderComponents>::empty());
        }
        r
    }

    /// Look an order up by key.
    #[verifier::loop_isolation(false)]
    pub fn get(&self, key: OrderKey) -> (r: Option<&OrderComponents>)
        requires
            self.wf(),
        ensures
            match r {
                Some(o) => self.contains_key(key) && *o == self.spec_get(key),
                None => !self.contains_key(key),
            },
    {
        let n = self.entries.len();
        let mut i: usize = 0;
        while i < n
            invariant
                n == self.entry_seq().len(),
                0 <= i <= n,
                self.wf(),
                forall|j: int| 0 <= j < i ==> (#[trigger] self.entry_seq()[j]).0 != key,
            decreases n - i,
        {
            let e = &self.entries[i];
            if e.0.0 == key.0 && e.0.1.0 == key.1.0 && e.0.1.1 == key.1.1 {
                proof {
                    let w = order_seq_index_of(self.entry_seq(), key);
                    assert(self.entry_seq()[i as int].0 == key);
                    lemma_order_key_unique(self.entry_seq(), w, i as int);
                }
                return Some(&self.entries[i].1);
            }
            i = i + 1;
        }
        None
    }

    /// Store or overwrite the order at `key`.  The latest offer for a key
    /// always replaces any earlier one.
    #[verifier::loop_isolation(false)]
    pub fn save(&mut self, key: OrderKey, order: OrderComponents)
        requires
            old(self).wf(),
            order_wf(key, order),
        ensures
            final(self).wf(),
            final(self).as_map() == old(self).as_map().insert(key, order),
            final(self).contains_key(key),
            final(self).spec_get(key) == order,
    {
        let ghost s0 = self.entry_seq();
        let n = self.entries.len();
        let mut i: usize = 0;
        while i < n && order_key_before(&self.entries[i].0, &key)
            invariant
                n == self.entry_seq().len(),
                0 <= i <= n,
                self.wf(),
                self.entry_seq() == s0,
                forall|j: int| 0 <= j < i ==> order_key_lt((#[trigger] self.entry_seq()[j]).0, key),
            decreases n - i,
        {
            i = i + 1;
        }
        if i < n && self.entries[i].0.0 == key.0 && self.entries[i].0.1.0 == key.1.0
            && self.entries[i].0.1.1 == key.1.1 {
            self.entries.set(i, (key, order));
            proof {
                let s1 = self.entry_seq();
                assert(s1 =~= s0.update(i as int, (key, order)));
                assert forall|j: int| 0 <= j < s1.len() implies (#[trigger] s1[j]).0 == s0[j].0 by {}
                assert forall|k: OrderKey| #[trigger]
                    order_seq_contains_key(s1, k) implies k == key || order_seq_contains_key(
                    s0,
                    k,
                ) by {
                    let w = choose|w: int| 0 <= w < s1.len() && s1[w].0 == k;
                    if w != i {
                        assert(s0[w].0 == k);
                    }
                }
                assert forall|k: OrderKey|
                    order_seq_contains_key(s0, k) implies #[trigger] order_seq_contains_key(
                    s1,
                    k,
                ) by {
                    let w = choose|w: int| 0 <= w < s0.len() && s0[w].0 == k;
                    assert(s1[w].0 == k);
                }
                assert forall|k: OrderKey|
                    order_seq_contains_key(s1, k) && k != key implies order_seq_get(s1, k)
                    == order_seq_get(s0, k) by {
                    let w1 = order_seq_index_of(s1, k);
                    assert(0 <= w1 < s1.len() && s1[w1].0 == k);
                    assert(w1 != i);
                    assert(s0[w1].0 == k);
                    let w0 = order_seq_index_of(s0, k);
                    assert(0 <= w0 < s0.len() && s0[w0].0 == k);
                    lemma_order_key_unique(s0, w0, w1);
                }
                assert(order_seq_contains_key(s1, key)) by {
                    assert(s1[i as int].0 == key);
                }
                assert(order_seq_get(s1, key) == order) by {
                    let w = order_seq_index_of(s1, key);
                    assert(s1[i as int].0 == key);
                    lemma_order_key_unique(s1, w, i as int);
                }
                assert(self.as_map() =~= old(self).as_map().insert(key, order));
            }
        } else {
            self.entries.insert(i, (key, order));
            proof {
                let s1 = self.entry_seq();
                assert(s1 == s0.insert(i as int, (key, order)));
                assert forall|j: int| 0 <= j < s1.len() implies (if j < i {
                    s1[j] == s0[j]
                } else if j == i {
                    s1[j] == (key, order)
                } else {
                    s1[j] == s0[j - 1]
                }) by {
                    assert(s1 =~= s0.subrange(0, i as int).push((key, order)) + s0.subrange(
                        i as int,
                        s0.len() as int,
                    ));
                }
                assert forall|j: int| i <= j < s0.len() implies order_key_lt(
                    key,
                    (#[trigger] s0[j]).0,
                ) by {
                    assert(!order_key_lt(s0[i as int].0, key));
                    assert(s0[i as int].0 != key);
                    assert(order_key_lt(key, s0[i as int].0));
                    if j > i {
                        assert(order_key_lt(s0[i as int].0, s0[j].0));
                    }
                }
                assert(order_seq_sorted(s1));
                assert forall|j: int| 0 <= j < s1.len() implies order_wf(
                    (#[trigger] s1[j]).0,
                    s1[j].1,
                ) by {
                    if j < i {
                        assert(order_wf(s0[j].0, s0[j].1));
                    } else if j > i {
                        assert(order_wf(s0[j - 1].0, s0[j - 1].1));
                    }
                }
                assert forall|k: OrderKey| #[trigger]
                    order_seq_contains_key(s1, k) implies k == key || order_seq_contains_key(
                    s0,
                    k,
                ) by {
                    let w = choose|w: int| 0 <= w < s1.len() && s1[w].0 == k;
                    if w < i {
                        assert(s0[w].0 == k);
                    } else if w > i {
                        assert(s0[w - 1].0 == k);
                    }
                }
                assert forall|k: OrderKey|
                    order_seq_contains_key(s0, k) implies #[trigger] order_seq_contains_key(
                    s1,
                    k,
                ) by {
                    let w = choose|w: int| 0 <= w < s0.len() && s0[w].0 == k;
                    if w < i {
                        assert(s1[w].0 == k);
                    } else {
                        assert(s1[w + 1].0 == k);
                    }
                }
                assert forall|k: OrderKey|
                    order_seq_contains_key(s1, k) && k != key implies order_seq_get(s1, k)
                    == order_seq_get(s0, k) by {
                    let w1 = order_seq_index_of(s1, k);
                    assert(0 <= w1 < s1.len() && s1[w1].0 == k);
                    assert(w1 != i);
                    let v = if w1 < i {
                        w1
                    } else {
                        w1 - 1
                    };
                    assert(s0[v].0 == k);
                    let w0 = order_seq_index_of(s0, k);
                    assert(0 <= w0 < s0.len() && s0[w0].0 == k);
                    lemma_order_key_unique(s0, w0, v);
                    assert(s1[w1].1 == s0[v].1);
                }
                assert(order_seq_contains_key(s1, key)) by {
                    assert(s1[i as int].0 == key);
                }
                assert(order_seq_get(s1, key) == order) by {
                    let w = order_seq_index_of(s1, key);
                    assert(s1[i as int].0 == key);
                    lemma_order_key_unique(s1, w, i as int);
                }
                assert(self.as_map() =~= old(self).as_map().insert(key, order));
            }
        }
    }

    /// Remove the order at `key` if present; absent keys are a no-op.
    #[verifier::loop_isolation(false)]
    pub fn remove(&mut self, key: OrderKey)
        requires
            old(self).wf(),
        ensures
            final(self).wf(),
            final(self).as_map() == old(self).as_map().remove(key),
            final(self).entry_seq().len() == if old(self).contains_key(key) {
                old(self).entry_seq().len() - 1
            } else {
                old(self).entry_seq().len() as int
            },
    {
        let ghost s0 = self.entry_seq();
        let n = self.entries.len();
        let mut i: usize = 0;
        while i < n
            invariant
                n == self.entry_seq().len(),
                0 <= i <= n,
                self.wf(),
                self.entry_seq() == s0,
                forall|j: int| 0 <= j < i ==> (#[trigger] self.entry_seq()[j]).0 != key,
            decreases n - i,
        {
            let found = {
                let e = &self.entries[i];
                e.0.0 == key.0 && e.0.1.0 == key.1.0 && e.0.1.1 == key.1.1
            };
            if found {
                self.entries.remove(i);
                proof {
                    let s1 = self.entry_seq();
                    assert(s1 == s0.remove(i as int));
                    assert forall|j: int| 0 <= j < s1.len() implies (if j < i {
                        s1[j] == s0[j]
                    } else {
                        s1[j] == s0[j + 1]
                    }) by {
                        assert(s1 =~= s0.subrange(0, i as int) + s0.subrange(
                            i + 1,
                            s0.len() as int,
                        ));
                    }
                    assert(order_seq_sorted(s1));
                    assert forall|j: int| 0 <= j < s1.len() implies order_wf(
                        (#[trigger] s1[j]).0,
                        s1[j].1,
                    ) by {
                        if j < i {
                            assert(order_wf(s0[j].0, s0[j].1));
                        } else {
                            assert(order_wf(s0[j + 1].0, s0[j + 1].1));
                        }
                    }
                    assert forall|k: OrderKey| #[trigger]
                        order_seq_contains_key(s1, k) implies order_seq_contains_key(s0, k) && k
                        != key by {
                        let w = choose|w: int| 0 <= w < s1.len() && s1[w].0 == k;
                        let v = if w < i {
                            w
                        } else {
                            w + 1
                        };
                        assert(s0[v].0 == k);
                        if k == key {
                            lemma_order_key_unique(s0, v, i as int);
                        }
                    }
                    assert forall|k: OrderKey|
                        order_seq_contains_key(s0, k) && k != key implies #[trigger]
                    order_seq_contains_key(s1, k) by {
                        let w = choose|w: int| 0 <= w < s0.len() && s0[w].0 == k;
                        assert(w != i);
                        if w < i {
                            assert(s1[w].0 == k);
                        } else {
                            assert(s1[w - 1].0 == k);
                        }
                    }
                    assert forall|k: OrderKey| #[trigger]
                        order_seq_contains_key(s1, k) implies order_seq_get(s1, k) == order_seq_get(
                        s0,
                        k,
                    ) by {
                        let w1 = order_seq_index_of(s1, k);
                        assert(0 <= w1 < s1.len() && s1[w1].0 == k);
                        let v = if w1 < i {
                            w1
                        } else {
                            w1 + 1
                        };
                        assert(s0[v].0 == k);
                        let w0 = order_seq_index_of(s0, k);
                        assert(0 <= w0 < s0.len() && s0[w0].0 == k);
                        lemma_order_key_unique(s0, w0, v);
                        assert(s1[w1].1 == s0[v].1);
                    }
                    assert(s0[i as int].0 == key);
                    assert(self.as_map() =~~= old(self).as_map().remove(key));
                }
                return ;
            }
            i = i + 1;
        }
        proof {
            assert(!order_seq_contains_key(s0, key));
            assert(self.as_map() =~~= old(self).as_map().remove(key));
        }
    }

    /// Remove every order belonging to `user` and no other.
    #[verifier::loop_isolation(false)]
    pub fn remove_user(&mut self, user: User)
        requires
            old(self).wf(),
        ensures
            final(self).wf(),
            final(self).as_map() == old(self).as_map().remove_keys(
                Set::new(|k: OrderKey| k.0 == user),
            ),
    {
        loop
            invariant
                self.wf(),
                forall|k: OrderKey| #[trigger]
                    self.contains_key(k) ==> old(self).contains_key(k) && self.spec_get(k) == old(
                        self,
                    ).spec_get(k),
                forall|k: OrderKey|
                    k.0 != user && old(self).contains_key(k) ==> #[trigger] self.contains_key(k),
            decreases self.entry_seq().len(),
        {
            // Find one remaining order of this user, if any.
            let n = self.entries.len();
            let mut i: usize = 0;
            let mut found: Option<OrderKey> = None;
            while i < n && found.is_none()
                invariant
                    0 <= i <= n,
                    match found {
                        Some(k) => self.contains_key(k) && k.0 == user,
                        None => forall|j: int|
                            0 <= j < i ==> (#[trigger] self.entry_seq()[j]).0.0 != user,
                    },
                decreases n - i, (if found is None { 1int } else { 0int }),
            {
                let e = &self.entries[i];
                if e.0.0 == user {
                    proof {
                        assert(self.entry_seq()[i as int].0 == e.0);
                    }
                    found = Some(e.0);
                } else {
                    i = i + 1;
                }
            }
            match found {
                Some(k) => {
                    let ghost pre = *self;
                    self.remove(k);
                    proof {
                        assert forall|x: OrderKey| #[trigger]
                            self.contains_key(x) implies pre.contains_key(x) && self.spec_get(x)
                            == pre.spec_get(x) by {
                            assert(self.as_map().dom().contains(x));
                            assert(pre.as_map().remove(k).dom().contains(x));
                            assert(pre.as_map().dom().contains(x) && x != k);
                            assert(self.as_map()[x] == pre.as_map().remove(k)[x]);
                            assert(pre.as_map().remove(k)[x] == pre.as_map()[x]);
                        }
                        assert forall|x: OrderKey|
                            x.0 != user && old(self).contains_key(x) implies #[trigger]
                        self.contains_key(x) by {
                            assert(pre.contains_key(x));
                            assert(x != k);
                            assert(pre.as_map().remove(k).dom().contains(x));
                            assert(self.as_map().dom().contains(x));
                        }
                    }
                },
                None => {
                    proof {
                        assert forall|k: OrderKey| #[trigger]
                            self.contains_key(k) implies k.0 != user by {
                            let w = choose|w: int|
                                0 <= w < self.entry_seq().len() && self.entry_seq()[w].0 == k;
                            assert(self.entry_seq()[w].0.0 != user);
                        }
                        assert(self.as_map() =~= old(self).as_map().remove_keys(
                            Set::new(|k: OrderKey| k.0 == user),
                        ));
                    }
                    return ;
                },
            }
        }
    }

    /// Descending paginated scan of the offers on one asset: highest
    /// offerer first, strictly below the cursor when one is given, capped
    /// at `MAX_OFFER_QUERY_LIMIT` results.
    #[verifier::loop_isolation(false)]
    pub fn range_offers_by_nft(&self, nft: Nft, start_after: Option<User>, limit: usize) -> (r: Vec<
        OrderComponents,
    >)
        requires
            self.wf(),
        ensures
            range_result_ok(
                self.entry_seq(),
                nft_offers_pred(nft, start_after),
                limit,
                r@,
            ),
    {
        let ghost pred = nft_offers_pred(nft, start_after);
        let cap = if limit < MAX_OFFER_QUERY_LIMIT {
            limit
        } else {
            MAX_OFFER_QUERY_LIMIT
        };
        let ghost s = self.entry_seq();
        let n = self.entries.len();
        let mut r: Vec<OrderComponents> = Vec::new();
        let mut i: usize = n;
        proof {
            assert(s.skip(n as int) =~= Seq::<(OrderKey, OrderComponents)>::empty());
        }
        while i > 0 && r.len() < cap
            invariant
                n == s.len(),
                0 <= i <= n,
                self.wf(),
                s == self.entry_seq(),
                r@.len() == matching_orders_desc(s.skip(i as int), pred).len(),
                forall|j: int|
                    0 <= j < r@.len() ==> (#[trigger] r@[j]).spec_same(
                        matching_orders_desc(s.skip(i as int), pred)[j].1,
                    ),
                r@.len() <= cap,
            decreases i,
        {
            let e = &self.entries[i - 1];
            let is_match = e.0.1.0 == nft.0 && e.0.1.1 == nft.1 && (match start_after {
                Some(u) => e.0.0 < u,
                None => true,
            });
            proof {
                lemma_desc_step(s, (i - 1) as int, pred);
                assert(pred(s[i - 1]) == is_match);
            }
            if is_match {
                r.push(self.entries[i - 1].1.clone());
            }
            i = i - 1;
        }
        proof {
            lemma_range_result(s, pred, limit, r@, i as int);
        }
        r
    }

    /// Descending paginated scan of one user's offers: highest asset key
    /// first, strictly below the cursor when one is given, capped at
    /// `MAX_OFFER_QUERY_LIMIT` results.
    #[verifier::loop_isolation(false)]
    pub fn range_offers_by_user(&self, user: User, start_after: Option<Nft>, limit: usize) -> (r:
        Vec<OrderComponents>)
        requires
            self.wf(),
        ensures
            range_result_ok(
                self.entry_seq(),
                user_offers_pred(user, start_after),
                limit,
                r@,
            ),
    {
        let ghost pred = user_offers_pred(user, start_after);
        let cap = if limit < MAX_OFFER_QUERY_LIMIT {
            limit
        } else {
            MAX_OFFER_QUERY_LIMIT
        };
        let ghost s = self.entry_seq();
        let n = self.entries.len();
        let mut r: Vec<OrderComponents> = Vec::new();
        let mut i: usize = n;
        proof {
            assert(s.skip(n as int) =~= Seq::<(OrderKey, OrderComponents)>::empty());
        }
        while i > 0 && r.len() < cap
            invariant
                n == s.len(),
                0 <= i <= n,
                self.wf(),
                s == self.entry_seq(),
                r@.len() == matching_orders_desc(s.skip(i as int), pred).len(),
                forall|j: int|
                    0 <= j < r@.len() ==> (#[trigger] r@[j]).spec_same(
                        matching_orders_desc(s.skip(i as int), pred)[j].1,
                    ),
                r@.len() <= cap,
            decreases i,
        {
            let e = &self.entries[i - 1];
            let is_match = e.0.0 == user && (match start_after {
                Some(nk) => e.0.1.0 < nk.0 || (e.0.1.0 == nk.0 && e.0.1.1 < nk.1),
                None => true,
            });
            proof {
                lemma_desc_step(s, (i - 1) as int, pred);
                assert(pred(s[i - 1]) == is_match);
            }
            if is_match {
                r.push(self.entries[i - 1].1.clone());
            }
            i = i - 1;
        }
        proof {
            lemma_range_result(s, pred, limit, r@, i as int);
        }
        r
    }
}

/// What both descending range scans promise: the result lists, in order,
/// the first `min(limit, MAX_OFFER_QUERY_LIMIT)` entries of the full
/// descending match sequence.
pub open spec fn range_result_ok(
    s: Seq<(OrderKey, OrderComponents)>,
    pred: spec_fn((OrderKey, OrderComponents)) -> bool,
    limit: usize,
    r: Seq<OrderComponents>,
) -> bool {
    let m = matching_orders_desc(s, pred);
    let cap = if limit < MAX_OFFER_QUERY_LIMIT {
        limit as int
    } else {
        MAX_OFFER_QUERY_LIMIT as int
    };
    &&& r.len() == if m.len() <= cap {
        m.len() as int
    } else {
        cap
    }
    &&& forall|j: int| 0 <= j < r.len() ==> (#[trigger] r[j]).spec_same(m[j].1)
}

/// Peeling one entry off the bottom of the suffix prepends its match (if
/// any) nowhere: the descending view of the longer suffix is the shorter
/// suffix's view with the new entry's match appended.
proof fn lemma_desc_step(
    s: Seq<(OrderKey, OrderComponents)>,
    i: int,
    pred: spec_fn((OrderKey, OrderComponents)) -> bool,
)
    requires
        0 <= i < s.len(),
    ensures
        matching_orders_desc(s.skip(i), pred) == if pred(s[i]) {
            matching_orders_desc(s.skip(i + 1), pred).push(s[i])
        } else {
            matching_orders_desc(s.skip(i + 1), pred)
        },
{
    reveal_with_fuel(matching_orders_desc, 3);
    let single = seq![s[i]];
    assert(s.skip(i) =~= single + s.skip(i + 1));
    lemma_matching_orders_desc_add(single, s.skip(i + 1), pred);
    assert(single.drop_last() =~= Seq::<(OrderKey, OrderComponents)>::empty());
    assert(single.last() == s[i]);
    if pred(s[i]) {
        assert(matching_orders_desc(single, pred) =~= seq![s[i]]);
        assert(matching_orders_desc(s.skip(i + 1), pred) + seq![s[i]] =~= matching_orders_desc(
            s.skip(i + 1),
            pred,
        ).push(s[i]));
    } else {
        assert(matching_orders_desc(single, pred) =~= Seq::<(OrderKey, OrderComponents)>::empty());
        assert(matching_orders_desc(s.skip(i + 1), pred) + matching_orders_desc(single, pred)
            =~= matching_orders_desc(s.skip(i + 1), pred));
    }
}

/// After the scan stops, what it gathered is exactly the capped prefix of
/// the full descending match sequence.
proof fn lemma_range_result(
    s: Seq<(OrderKey, OrderComponents)>,
    pred: spec_fn((OrderKey, OrderComponents)) -> bool,
    limit: usize,
    r: Seq<OrderComponents>,
    i: int,
)
    requires
        0 <= i <= s.len(),
        r.len() == matching_orders_desc(s.skip(i), pred).len(),
        forall|j: int|
            0 <= j < r.len() ==> (#[trigger] r[j]).spec_same(
                matching_orders_desc(s.skip(i), pred)[j].1,
            ),
        i == 0 || r.len() == if limit < MAX_OFFER_QUERY_LIMIT {
            limit as int
        } else {
            MAX_OFFER_QUERY_LIMIT as int
        },
        r.len() <= if limit < MAX_OFFER_QUERY_LIMIT {
            limit as int
        } else {
            MAX_OFFER_QUERY_LIMIT as int
        },
    ensures
        range_result_ok(s, pred, limit, r),
{
    let m = matching_orders_desc(s, pred);
    let part = matching_orders_desc(s.skip(i), pred);
    if i == 0 {
        assert(s.skip(0) =~= s);
    } else {
        assert(s =~= s.take(i) + s.skip(i));
        lemma_matching_orders_desc_add(s.take(i), s.skip(i), pred);
        assert(m == part + matching_orders_desc(s.take(i), pred));
        assert(forall|j: int| 0 <= j < part.len() ==> m[j] == part[j]);
    }
}

/// Fresh, empty order table.
pub fn orders() -> (r: OrderStore)
    ensures
        r.wf(),
        r.as_map() == Map::<OrderKey, OrderComponents>::empty(),
        r.entry_seq() == Seq::<(OrderKey, OrderComponents)>::empty(),
{
    OrderStore::new()
}

} // verus!
