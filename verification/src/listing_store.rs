//! Keyed table of listings with an ordered scan serving the paginated
//! range query by status and collection.
//!
//! Entries are held in ascending key order with no duplicate keys, so the
//! table is simultaneously the authoritative map and its own secondary
//! index: listings of one collection are contiguous and ordered by token
//! id, and a range query is an ordered scan filtered by status name.

use vstd::prelude::*;
use crate::state::{listing_key_before, listing_key_lt, Listing, ListingKey};
use crate::types::{Addr, TokenId};

verus! {

/// Hard cap on the number of results one range query may return,
/// whatever limit the caller asked for.
pub const MAX_QUERY_LIMIT: usize = 30;

/// A stored entry must agree with its key.
pub open spec fn listing_entry_ok(e: (ListingKey, Listing)) -> bool {
    e.1.contract_address == e.0.0 && e.1.token_id == e.0.1
}

pub open spec fn listing_seq_sorted(s: Seq<(ListingKey, Listing)>) -> bool {
    forall|i: int, j: int|
        0 <= i < j < s.len() ==> listing_key_lt(s[i].0, s[j].0)
}

pub open spec fn listing_seq_contains_key(s: Seq<(ListingKey, Listing)>, k: ListingKey) -> bool {
    exists|i: int| 0 <= i < s.len() && s[i].0 == k
}

pub open spec fn listing_seq_index_of(s: Seq<(ListingKey, Listing)>, k: ListingKey) -> int {
    choose|i: int| 0 <= i < s.len() && s[i].0 == k
}

pub open spec fn listing_seq_get(s: Seq<(ListingKey, Listing)>, k: ListingKey) -> Listing {
    s[listing_seq_index_of(s, k)].1
}

/// In a sorted sequence every key occurs at most once.
pub proof fn lemma_listing_key_unique(s: Seq<(ListingKey, Listing)>, i: int, j: int)
    requires
        listing_seq_sorted(s),
        0 <= i < s.len(),
        0 <= j < s.len(),
        s[i].0 == s[j].0,
    ensures
        i == j,
{
    if i < j {
        assert(listing_key_lt(s[i].0, s[j].0));
    }
    if j < i {
        assert(listing_key_lt(s[j].0, s[i].0));
    }
}

/// Whether an entry belongs to the result window of a range query: right
/// status name, right collection, and strictly after the cursor.
pub open spec fn listing_matches(
    e: (ListingKey, Listing),
    status: Seq<char>,
    contract_address: Addr,
    start_after: Option<TokenId>,
) -> bool {
    &&& e.1.status.spec_name() == status
    &&& e.0.0 == contract_address
    &&& match start_after {
        Some(t) => e.0.1 > t,
        None => true,
    }
}

/// The listings an unbounded range query would return, in storage order.
pub open spec fn matching_listings(
    s: Seq<(ListingKey, Listing)>,
    status: Seq<char>,
    contract_address: Addr,
    start_after: Option<TokenId>,
) -> Seq<Listing>
    decreases s.len(),
{
    if s.len() == 0 {
        Seq::empty()
    } else {
        let rest = matching_listings(s.drop_last(), status, contract_address, start_after);
        if listing_matches(s.last(), status, contract_address, start_after) {
            rest.push(s.last().1)
        } else {
            rest
        }
    }
}

pub proof fn lemma_matching_listings_push(
    s: Seq<(ListingKey, Listing)>,
    e: (ListingKey, Listing),
    status: Seq<char>,
    contract_address: Addr,
    start_after: Option<TokenId>,
)
    ensures
        matching_listings(s.push(e), status, contract_address, start_after) == if listing_matches(
            e,
            status,
            contract_address,
            start_after,
        ) {
            matching_listings(s, status, contract_address, start_after).push(e.1)
        } else {
            matching_listings(s, status, contract_address, start_after)
        },
{
    assert(s.push(e).drop_last() =~= s);
    assert(s.push(e).last() == e);
}

pub proof fn lemma_matching_listings_add(
    a: Seq<(ListingKey, Listing)>,
    b: Seq<(ListingKey, Listing)>,
    status: Seq<char>,
    contract_address: Addr,
    start_after: Option<TokenId>,
)
    ensures
        matching_listings(a + b, status, contract_address, start_after) == matching_listings(
            a,
            status,
            contract_address,
            start_after,
        ) + matching_listings(b, status, contract_address, start_after),
    decreases b.len(),
{
    if b.len() == 0 {
        assert(a + b =~= a);
        assert(matching_listings(b, status, contract_address, start_after)
            =~= Seq::<Listing>::empty());
        assert(matching_listings(a, status, contract_address, start_after) + Seq::<
            Listing,
        >::empty() =~= matching_listings(a, status, contract_address, start_after));
    } else {
        lemma_matching_listings_add(a, b.drop_last(), status, contract_address, start_after);
        assert((a + b).drop_last() =~= a + b.drop_last());
        assert((a + b).last() == b.last());
        if listing_matches(b.last(), status, contract_address, start_after) {
            assert(matching_listings(a, status, contract_address, start_after)
                + matching_listings(b, status, contract_address, start_after)
                =~= (matching_listings(a, status, contract_address, start_after)
                    + matching_listings(b.drop_last(), status, contract_address, start_after)).push(
                b.last().1,
            ));
        }
    }
}

/// Keyed table of listings plus its derived range-query view.
pub struct ListingStore {
    entries: Vec<(ListingKey, Listing)>,
}

impl ListingStore {
    /// The underlying entries, in ascending key order.
    pub closed spec fn entry_seq(self) -> Seq<(ListingKey, Listing)> {
        self.entries@
    }

    /// Well-formedness: ascending key order (hence unique keys), and every
    /// entry agrees with its key.
    pub open spec fn wf(self) -> bool {
        &&& listing_seq_sorted(self.entry_seq())
        &&& forall|i: int|
            0 <= i < self.entry_seq().len() ==> listing_entry_ok(#[trigger] self.entry_seq()[i])
    }

    pub open spec fn contains_key(self, k: ListingKey) -> bool {
        listing_seq_contains_key(self.entry_seq(), k)
    }

    pub open spec fn spec_get(self, k: ListingKey) -> Listing {
        listing_seq_get(self.entry_seq(), k)
    }

    /// The table as a mathematical map.
    pub open spec fn as_map(self) -> Map<ListingKey, Listing> {
        Map::new(|k: ListingKey| self.contains_key(k), |k: ListingKey| self.spec_get(k))
    }

    pub fn new() -> (r: ListingStore)
        ensures
            r.wf(),
            r.as_map() == Map::<ListingKey, Listing>::empty(),
            r.entry_seq() == Seq::<(ListingKey, Listing)>::empty(),
    {
        let r = ListingStore { entries: Vec::new() };
        proof {
            assert(r.entry_seq() =~= Seq::<(ListingKey, Listing)>::empty());
            assert(r.as_map() =~= Map::<ListingKey, Listing>::empty());
        }
        r
    }

    /// Look a listing up by key.
    pub fn get(&self, key: ListingKey) -> (r: Option<&Listing>)
        requires
            self.wf(),
        ensures
            match r {
                Some(l) => self.contains_key(key) && *l == self.spec_get(key),
                None => !self.contains_key(key),
            },
    {
        let n = self.entries.len();
        let mut i: usize = 0;
        while i < n
            invariant
                n == self.entry_seq().len(),
                0 <= i <= n,
                self.wf(),
                forall|j: int| 0 <= j < i ==> (#[trigger] self.entry_seq()[j]).0 != key,
            decreases n - i,
        {
            let e = &self.entries[i];
            if e.0.0 == key.0 && e.0.1 == key.1 {
                proof {
                    let w = listing_seq_index_of(self.entry_seq(), key);
                    assert(self.entry_seq()[i as int].0 == key);
                    lemma_listing_key_unique(self.entry_seq(), w, i as int);
                }
                return Some(&self.entries[i].1);
            }
            i = i + 1;
        }
        None
    }

    /// Store or overwrite the listing at `key`.
    pub fn save(&mut self, key: ListingKey, listing: Listing)
        requires
            old(self).wf(),
            listing.contract_address == key.0,
            listing.token_id == key.1,
        ensures
            final(self).wf(),
            final(self).as_map() == old(self).as_map().insert(key, listing),
            final(self).contains_key(key),
            final(self).spec_get(key) == listing,
    {
        let ghost s0 = self.entry_seq();
        let n = self.entries.len();
        let mut i: usize = 0;
        while i < n && listing_key_before(&self.entries[i].0, &key)
            invariant
                n == self.entry_seq().len(),
                0 <= i <= n,
                self.wf(),
                self.entry_seq() == s0,
                forall|j: int| 0 <= j < i ==> listing_key_lt((#[trigger] self.entry_seq()[j]).0, key),
            decreases n - i,
        {
            i = i + 1;
        }
        if i < n && self.entries[i].0.0 == key.0 && self.entries[i].0.1 == key.1 {
            // Overwrite in place.
            self.entries.set(i, (key, listing));
            proof {
                let s1 = self.entry_seq();
                assert(s1 =~= s0.update(i as int, (key, listing)));
                assert forall|k: ListingKey| #[trigger]
                    listing_seq_contains_key(s1, k) implies k == key || listing_seq_contains_key(
                    s0,
                    k,
                ) by {
                    let w = choose|w: int| 0 <= w < s1.len() && s1[w].0 == k;
                    if w != i {
                        assert(s0[w].0 == k);
                    }
                }
                assert forall|k: ListingKey|
                    listing_seq_contains_key(s0, k) implies #[trigger] listing_seq_contains_key(
                    s1,
                    k,
                ) by {
                    let w = choose|w: int| 0 <= w < s0.len() && s0[w].0 == k;
                    if w == i {
                        assert(s1[w].0 == key);
                        lemma_listing_key_unique(s0, w, i as int);
                        assert(k == key);
                        assert(s1[w].0 == k);
                    } else {
                        assert(s1[w].0 == k);
                    }
                }
                assert forall|k: ListingKey|
                    listing_seq_contains_key(s1, k) && k != key implies listing_seq_get(s1, k)
                    == listing_seq_get(s0, k) by {
                    let w1 = listing_seq_index_of(s1, k);
                    assert(0 <= w1 < s1.len() && s1[w1].0 == k);
                    assert(w1 != i);
                    assert(s0[w1].0 == k);
                    let w0 = listing_seq_index_of(s0, k);
                    assert(0 <= w0 < s0.len() && s0[w0].0 == k);
                    lemma_listing_key_unique(s0, w0, w1);
                }
                assert(listing_seq_contains_key(s1, key)) by {
                    assert(s1[i as int].0 == key);
                }
                assert(listing_seq_get(s1, key) == listing) by {
                    let w = listing_seq_index_of(s1, key);
                    assert(s1[i as int].0 == key);
                    lemma_listing_key_unique(s1, w, i as int);
                }
                assert(self.as_map() =~= old(self).as_map().insert(key, listing));
            }
        } else {
            // Insert at the sorted position.
            self.entries.insert(i, (key, listing));
            proof {
                let s1 = self.entry_seq();
                assert(s1 == s0.insert(i as int, (key, listing)));
                assert forall|j: int| 0 <= j < s1.len() implies (if j < i {
                    s1[j] == s0[j]
                } else if j == i {
                    s1[j] == (key, listing)
                } else {
                    s1[j] == s0[j - 1]
                }) by {
                    assert(s1 =~= s0.subrange(0, i as int).push((key, listing)) + s0.subrange(
                        i as int,
                        s0.len() as int,
                    ));
                }
                // The new sequence is sorted: everything before `i` is below
                // `key`, and `key` is below everything from `i` on.
                assert forall|j: int| i <= j < s0.len() implies listing_key_lt(
                    key,
                    (#[trigger] s0[j]).0,
                ) by {
                    assert(!listing_key_lt(s0[i as int].0, key));
                    assert(s0[i as int].0 != key);
                    assert(listing_key_lt(key, s0[i as int].0));
                    if j > i {
                        assert(listing_key_lt(s0[i as int].0, s0[j].0));
                    }
                }
                assert(listing_seq_sorted(s1));
                assert forall|j: int| 0 <= j < s1.len() implies listing_entry_ok(
                    #[trigger] s1[j],
                ) by {
                    if j < i {
                        assert(listing_entry_ok(s0[j]));
                    } else if j > i {
                        assert(listing_entry_ok(s0[j - 1]));
                    }
                }
                assert forall|k: ListingKey| #[trigger]
                    listing_seq_contains_key(s1, k) implies k == key || listing_seq_contains_key(
                    s0,
                    k,
                ) by {
                    let w = choose|w: int| 0 <= w < s1.len() && s1[w].0 == k;
                    if w < i {
                        assert(s0[w].0 == k);
                    } else if w > i {
                        assert(s0[w - 1].0 == k);
                    }
                }
                assert forall|k: ListingKey|
                    listing_seq_contains_key(s0, k) implies #[trigger] listing_seq_contains_key(
                    s1,
                    k,
                ) by {
                    let w = choose|w: int| 0 <= w < s0.len() && s0[w].0 == k;
                    if w < i {
                        assert(s1[w].0 == k);
                    } else {
                        assert(s1[w + 1].0 == k);
                    }
                }
                assert forall|k: ListingKey|
                    listing_seq_contains_key(s1, k) && k != key implies listing_seq_get(s1, k)
                    == listing_seq_get(s0, k) by {
                    let w1 = listing_seq_index_of(s1, k);
                    assert(0 <= w1 < s1.len() && s1[w1].0 == k);
                    assert(w1 != i);
                    let v = if w1 < i {
                        w1
                    } else {
                        w1 - 1
                    };
                    assert(s0[v].0 == k);
                    let w0 = listing_seq_index_of(s0, k);
                    assert(0 <= w0 < s0.len() && s0[w0].0 == k);
                    lemma_listing_key_unique(s0, w0, v);
                    assert(s1[w1].1 == s0[v].1);
                }
                assert(listing_seq_contains_key(s1, key)) by {
                    assert(s1[i as int].0 == key);
                }
                assert(listing_seq_get(s1, key) == listing) by {
                    let w = listing_seq_index_of(s1, key);
                    assert(s1[i as int].0 == key);
                    lemma_listing_key_unique(s1, w, i as int);
                }
                assert(self.as_map() =~= old(self).as_map().insert(key, listing));
            }
        }
    }

    /// Paginated range query: listings with the given status name in the
    /// given collection, ascending by token id, strictly after the cursor,
    /// capped at `MAX_QUERY_LIMIT` results whatever `limit` asks for.
    pub fn range_by_status_and_collection(
        &self,
        status: &String,
        contract_address: Addr,
        start_after: Option<TokenId>,
        limit: usize,
    ) -> (r: Vec<Listing>)
        requires
            self.wf(),
        ensures
            ({
                let m = matching_listings(self.entry_seq(), status@, contract_address, start_after);
                let cap = if limit < MAX_QUERY_LIMIT {
                    limit as int
                } else {
                    MAX_QUERY_LIMIT as int
                };
                &&& r@.len() == if m.len() <= cap {
                    m.len() as int
                } else {
                    cap
                }
                &&& r@ == m.take(r@.len() as int)
            }),
    {
        let cap = if limit < MAX_QUERY_LIMIT {
            limit
        } else {
            MAX_QUERY_LIMIT
        };
        let ghost s = self.entry_seq();
        let n = self.entries.len();
        let mut r: Vec<Listing> = Vec::new();
        let mut i: usize = 0;
        proof {
            assert(s.take(0) =~= Seq::<(ListingKey, Listing)>::empty());
        }
        while i < n && r.len() < cap
            invariant
                n == s.len(),
                0 <= i <= n,
                self.wf(),
                s == self.entry_seq(),
                r@ == matching_listings(s.take(i as int), status@, contract_address, start_after),
                r@.len() <= cap,
            decreases n - i,
        {
            let e = &self.entries[i];
            let is_match = e.1.status.name() == *status && e.0.0 == contract_address && (
            match start_after {
                Some(t) => e.0.1 > t,
                None => true,
            });
            proof {
                assert(s.take(i + 1) =~= s.take(i as int).push(s[i as int]));
                lemma_matching_listings_push(
                    s.take(i as int),
                    s[i as int],
                    status@,
                    contract_address,
                    start_after,
                );
            }
            if is_match {
                r.push(self.entries[i].1.clone());
            }
            i = i + 1;
        }
        proof {
            let m = matching_listings(s, status@, contract_address, start_after);
            if i == n {
                assert(s.take(n as int) =~= s);
                assert(m.take(r@.len() as int) =~= m);
            } else {
                assert(r@.len() == cap);
                assert(s =~= s.take(i as int) + s.skip(i as int));
                lemma_matching_listings_add(
                    s.take(i as int),
                    s.skip(i as int),
                    status@,
                    contract_address,
                    start_after,
                );
                assert(m == r@ + matching_listings(
                    s.skip(i as int),
                    status@,
                    contract_address,
                    start_after,
                ));
                assert(m.take(r@.len() as int) =~= r@);
            }
        }
        r
    }
}

/// Fresh, empty listing table.
pub fn listings() -> (r: ListingStore)
    ensures
        r.wf(),
        r.as_map() == Map::<ListingKey, Listing>::empty(),
        r.entry_seq() == Seq::<(ListingKey, Listing)>::empty(),
{
    ListingStore::new()
}

} // verus!
