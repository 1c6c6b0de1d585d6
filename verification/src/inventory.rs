//! The bid inventory and the matching engine.
//!
//! Open bids are stored with the address of the advertiser that placed
//! them, keyed by bid id. An auction selects, among eligible open bids
//! (price at or above the floor, at least one targeting tag shared with the
//! auction's attributes, compared by exact string equality), the one with
//! the highest price, ties broken by the lowest bid id — a fixed total
//! order, so every node picks the same winner. First-price semantics: the
//! winner pays its own bid price.

use vstd::prelude::*;
use crate::identity::Address;
use crate::primitives::{AuctionTrigger, Bid, Match};

verus! {

/// An open bid together with the address of the advertiser that placed it.
#[derive(Clone, Debug)]
pub struct InventoryEntry {
    pub bid: Bid,
    pub advertiser: Address,
}

/// Whether some entry in `s` has bid id `id`.
pub open spec fn contains_id(s: Seq<InventoryEntry>, id: u128) -> bool {
    exists|k: int| 0 <= k < s.len() && #[trigger] s[k].bid.id == id
}

/// No two entries share a bid id.
pub open spec fn unique_ids(s: Seq<InventoryEntry>) -> bool {
    forall|i: int, j: int| 0 <= i < j < s.len() ==> s[i].bid.id != s[j].bid.id
}

/// `s` with the first entry of bid id `id` removed (unchanged if absent).
pub open spec fn remove_id(s: Seq<InventoryEntry>, id: u128) -> Seq<InventoryEntry>
    decreases s.len(),
{
    if s.len() == 0 {
        s
    } else if s[0].bid.id == id {
        s.drop_first()
    } else {
        seq![s[0]] + remove_id(s.drop_first(), id)
    }
}

/// Whether some string of `ts` also occurs in `us` (exact, case-sensitive
/// string equality).
pub open spec fn intersects(ts: Seq<Seq<char>>, us: Seq<Seq<char>>) -> bool {
    exists|i: int| 0 <= i < ts.len() && #[trigger] us.contains(ts[i])
}

/// Whether `e` may serve `auction`: its price reaches the floor and it
/// shares at least one tag with the auction's attributes.
pub open spec fn eligible(e: InventoryEntry, auction: AuctionTrigger) -> bool {
    &&& e.bid.price >= auction.bid_floor
    &&& intersects(e.bid.targeting.deep_view(), auction.attributes.deep_view())
}

/// The fixed total preference order on bids: higher price wins, ties go to
/// the lower bid id.
pub open spec fn prefers(a: InventoryEntry, b: InventoryEntry) -> bool {
    ||| a.bid.price > b.bid.price
    ||| (a.bid.price == b.bid.price && a.bid.id < b.bid.id)
}

/// The winning entry for `auction` among `s`: the most preferred eligible
/// entry, or `None` if no entry is eligible. A pure function of the
/// snapshot and the auction alone.
pub open spec fn best_entry(s: Seq<InventoryEntry>, auction: AuctionTrigger) -> Option<
    InventoryEntry,
>
    decreases s.len(),
{
    if s.len() == 0 {
        None
    } else {
        let rest = best_entry(s.drop_last(), auction);
        if !eligible(s.last(), auction) {
            rest
        } else {
            match rest {
                None => Some(s.last()),
                Some(r) => if prefers(s.last(), r) {
                    Some(s.last())
                } else {
                    Some(r)
                },
            }
        }
    }
}

fn contains_string(us: &Vec<String>, x: &String) -> (r: bool)
    ensures
        r == us.deep_view().contains(x@),
{
    let mut j: usize = 0;
    while j < us.len()
        invariant
            j <= us@.len(),
            forall|l: int| 0 <= l < j ==> us@[l]@ != x@,
        decreases us@.len() - j,
    {
        if us[j] == *x {
            proof {
                assert(us.deep_view()[j as int] == x@);
            }
            return true;
        }
        j = j + 1;
    }
    proof {
        assert forall|l: int| 0 <= l < us.deep_view().len() implies us.deep_view()[l] != x@ by {
            assert(us.deep_view()[l] == us@[l]@);
        }
    }
    false
}

fn has_common_tag(ts: &Vec<String>, us: &Vec<String>) -> (r: bool)
    ensures
        r == intersects(ts.deep_view(), us.deep_view()),
{
    let mut i: usize = 0;
    while i < ts.len()
        invariant
            i <= ts@.len(),
            forall|k: int| 0 <= k < i ==> !(#[trigger] us.deep_view().contains(ts.deep_view()[k])),
        decreases ts@.len() - i,
    {
        if contains_string(us, &ts[i]) {
            proof {
                assert(us.deep_view().contains(ts.deep_view()[i as int]));
            }
            return true;
        }
        proof {
            assert(ts.deep_view()[i as int] == ts@[i as int]@);
        }
        i = i + 1;
    }
    false
}

/// Decides eligibility of one entry for one auction.
pub fn is_eligible(e: &InventoryEntry, auction: &AuctionTrigger) -> (r: bool)
    ensures
        r == eligible(*e, *auction),
{
    e.bid.price >= auction.bid_floor && has_common_tag(&e.bid.targeting, &auction.attributes)
}

/// The open-bid store. Mutated only under the applier's direction.
#[derive(Debug)]
pub struct BidInventory {
    entries: Vec<InventoryEntry>,
}

impl BidInventory {
    /// The current open bids, in insertion order.
    pub closed spec fn snap(&self) -> Seq<InventoryEntry> {
        self.entries@
    }

    /// Well-formedness: one entry per bid id.
    pub open spec fn wf(&self) -> bool {
        unique_ids(self.snap())
    }

    /// Creates an empty inventory.
    pub fn new() -> (r: BidInventory)
        ensures
            r.wf(),
            r.snap().len() == 0,
    {
        BidInventory { entries: Vec::new() }
    }

    /// Inserts an open bid, keyed by its id. Returns `false`, changing
    /// nothing, exactly when the id is already present.
    pub fn place_bid(&mut self, entry: InventoryEntry) -> (r: bool)
        requires
            old(self).wf(),
        ensures
            final(self).wf(),
            r == !contains_id(old(self).snap(), entry.bid.id),
            r ==> final(self).snap() == old(self).snap().push(entry),
            !r ==> final(self).snap() == old(self).snap(),
    {
        let ghost s0 = self.snap();
        let mut j: usize = 0;
        while j < self.entries.len()
            invariant
                j <= s0.len(),
                s0 == self.entries@,
                s0 == old(self).snap(),
                unique_ids(s0),
                forall|k: int| 0 <= k < j ==> s0[k].bid.id != entry.bid.id,
            decreases s0.len() - j,
        {
            if self.entries[j].bid.id == entry.bid.id {
                proof {
                    assert(s0[j as int].bid.id == entry.bid.id);
                }
                return false;
            }
            j = j + 1;
        }
        self.entries.push(entry);
        proof {
            let t = self.entries@;
            assert forall|p: int, q: int| 0 <= p < q < t.len() implies t[p].bid.id
                != t[q].bid.id by {
                if q < s0.len() {
                    assert(t[p] == s0[p]);
                    assert(t[q] == s0[q]);
                } else {
                    assert(t[p] == s0[p]);
                    assert(t[q] == entry);
                }
            }
        }
        true
    }

    /// Removes the bid with the given id, if present; returns whether a
    /// bid was removed.
    pub fn remove_bid(&mut self, id: u128) -> (r: bool)
        requires
            old(self).wf(),
        ensures
            final(self).wf(),
            r == contains_id(old(self).snap(), id),
            final(self).snap() == remove_id(old(self).snap(), id),
    {
        let ghost s0 = self.snap();
        let mut j: usize = 0;
        while j < self.entries.len()
            invariant
                j <= s0.len(),
                s0 == self.entries@,
                s0 == old(self).snap(),
                unique_ids(s0),
                forall|k: int| 0 <= k < j ==> s0[k].bid.id != id,
            decreases s0.len() - j,
        {
            if self.entries[j].bid.id == id {
                proof {
                    assert(s0[j as int].bid.id == id);
                }
                self.entries.remove(j);
                proof {
                    lemma_remove_first(s0, id, j as int);
                    lemma_unique_remove(s0, j as int);
                }
                return true;
            }
            j = j + 1;
        }
        proof {
            lemma_remove_id_absent(s0, id);
        }
        false
    }

    /// The matching engine: selects the winning open bid for `auction`, if
    /// any, without changing the inventory. The winner is the eligible bid
    /// with the highest price, ties broken by the lowest bid id; the match
    /// carries the winner's own price (first-price semantics), the
    /// advertiser that placed the winning bid, and the given publisher
    /// address.
    pub fn find_match(&self, auction: &AuctionTrigger, publisher_addr: &Address) -> (r: Option<
        Match,
    >)
        ensures
            match best_entry(self.snap(), *auction) {
                None => r is None,
                Some(w) => r matches Some(m) && m.bid_id == w.bid.id && m.auction_id == auction.id
                    && m.winning_price == w.bid.price && m.advertiser_addr@ == w.advertiser@
                    && m.publisher_addr@ == publisher_addr@,
            },
    {
        let ghost s = self.snap();
        let mut best: Option<usize> = None;
        let mut i: usize = 0;
        while i < self.entries.len()
            invariant
                i <= s.len(),
                s == self.entries@,
                match best {
                    None => best_entry(s.take(i as int), *auction) is None,
                    Some(bi) => bi < i && best_entry(s.take(i as int), *auction) == Some(
                        s[bi as int],
                    ),
                },
            decreases s.len() - i,
        {
            let eligible_now = is_eligible(&self.entries[i], auction);
            if eligible_now {
                let replace = match best {
                    None => true,
                    Some(bi) => self.entries[i].bid.price > self.entries[bi].bid.price || (
                    self.entries[i].bid.price == self.entries[bi].bid.price
                        && self.entries[i].bid.id < self.entries[bi].bid.id),
                };
                if replace {
                    best = Some(i);
                }
            }
            proof {
                assert(s.take(i as int + 1).drop_last() =~= s.take(i as int));
                assert(s.take(i as int + 1).last() == s[i as int]);
            }
            i = i + 1;
        }
        proof {
            assert(s.take(s.len() as int) =~= s);
        }
        match best {
            Some(bi) => {
                let e = &self.entries[bi];
                Some(
                    Match {
                        bid_id: e.bid.id,
                        auction_id: auction.id,
                        winning_price: e.bid.price,
                        advertiser_addr: e.advertiser.clone(),
                        publisher_addr: publisher_addr.clone(),
                    },
                )
            },
            None => None,
        }
    }
}

proof fn lemma_remove_first(s: Seq<InventoryEntry>, id: u128, i: int)
    requires
        0 <= i < s.len(),
        s[i].bid.id == id,
        forall|k: int| 0 <= k < i ==> s[k].bid.id != id,
    ensures
        s.remove(i) =~= remove_id(s, id),
    decreases i,
{
    if i == 0 {
        assert(s.remove(0) =~= s.drop_first());
    } else {
        assert(s.drop_first()[i - 1] == s[i]);
        assert(forall|k: int| 0 <= k < i - 1 ==> s.drop_first()[k] == s[k + 1]);
        lemma_remove_first(s.drop_first(), id, i - 1);
        assert(s.remove(i) =~= seq![s[0]] + s.drop_first().remove(i - 1));
    }
}

proof fn lemma_remove_id_absent(s: Seq<InventoryEntry>, id: u128)
    requires
        forall|k: int| 0 <= k < s.len() ==> s[k].bid.id != id,
    ensures
        remove_id(s, id) =~= s,
    decreases s.len(),
{
    if s.len() > 0 {
        assert(forall|k: int| 0 <= k < s.drop_first().len() ==> s.drop_first()[k] == s[k + 1]);
        lemma_remove_id_absent(s.drop_first(), id);
        assert(seq![s[0]] + s.drop_first() =~= s);
    }
}

proof fn lemma_unique_remove(s: Seq<InventoryEntry>, i: int)
    requires
        unique_ids(s),
        0 <= i < s.len(),
    ensures
        unique_ids(s.remove(i)),
{
    let t = s.remove(i);
    assert forall|p: int, q: int| 0 <= p < q < t.len() implies t[p].bid.id != t[q].bid.id by {
        let p0 = if p < i { p } else { p + 1 };
        let q0 = if q < i { q } else { q + 1 };
        assert(t[p] == s[p0]);
        assert(t[q] == s[q0]);
    }
}

/// What the winner is: if `best_entry` yields a winner, the winner is an
/// eligible entry of the snapshot that no other eligible entry is
/// preferred over; if it yields none, no entry is eligible.
pub proof fn lemma_best_entry_props(s: Seq<InventoryEntry>, auction: AuctionTrigger)
    ensures
        match best_entry(s, auction) {
            None => forall|k: int| 0 <= k < s.len() ==> !eligible(#[trigger] s[k], auction),
            Some(w) => s.contains(w) && eligible(w, auction) && forall|k: int|
                0 <= k < s.len() && eligible(#[trigger] s[k], auction) ==> !prefers(s[k], w),
        },
    decreases s.len(),
{
    if s.len() > 0 {
        lemma_best_entry_props(s.drop_last(), auction);
        let d = s.drop_last();
        assert(forall|k: int| 0 <= k < d.len() ==> d[k] == s[k]);
        match best_entry(d, auction) {
            None => {},
            Some(r) => {
                let k0 = choose|k: int| 0 <= k < d.len() && d[k] == r;
                assert(s[k0] == r);
                assert(s.contains(r));
            },
        }
        match best_entry(s, auction) {
            None => {},
            Some(w) => {
                if w == s.last() {
                    assert(s[s.len() - 1] == w);
                    assert(s.contains(w));
                }
            },
        }
    }
}

/// Matching is deterministic in the snapshot's contents: two snapshots
/// holding the same entries (in any order, each with unique bid ids) yield
/// the same winner for the same auction.
pub proof fn lemma_match_deterministic(
    s1: Seq<InventoryEntry>,
    s2: Seq<InventoryEntry>,
    auction: AuctionTrigger,
)
    requires
        unique_ids(s1),
        unique_ids(s2),
        forall|e: InventoryEntry| #[trigger] s1.contains(e) ==> s2.contains(e),
        forall|e: InventoryEntry| #[trigger] s2.contains(e) ==> s1.contains(e),
    ensures
        best_entry(s1, auction) == best_entry(s2, auction),
{
    lemma_best_entry_props(s1, auction);
    lemma_best_entry_props(s2, auction);
    match (best_entry(s1, auction), best_entry(s2, auction)) {
        (None, None) => {},
        (Some(w1), None) => {
            assert(s2.contains(w1));
            let k = choose|k: int| 0 <= k < s2.len() && s2[k] == w1;
            assert(!eligible(s2[k], auction));
        },
        (None, Some(w2)) => {
            assert(s1.contains(w2));
            let k = choose|k: int| 0 <= k < s1.len() && s1[k] == w2;
            assert(!eligible(s1[k], auction));
        },
        (Some(w1), Some(w2)) => {
            assert(s2.contains(w1));
            let k1 = choose|k: int| 0 <= k < s2.len() && s2[k] == w1;
            assert(!prefers(s2[k1], w2));
            assert(s1.contains(w2));
            let k2 = choose|k: int| 0 <= k < s1.len() && s1[k] == w2;
            assert(!prefers(s1[k2], w1));
            assert(w1.bid.price == w2.bid.price && w1.bid.id == w2.bid.id);
            let j2 = choose|k: int| 0 <= k < s2.len() && s2[k] == w2;
            if k1 != j2 {
                assert(s2[k1].bid.id != s2[j2].bid.id);
            }
            assert(w1 == w2);
        },
    }
}

/// Among eligible bids of equal highest price, the lower bid id wins: the
/// winner is never an entry over which an equally priced entry with a
/// lower id is preferred.
pub proof fn lemma_tiebreak_lowest_id(
    s: Seq<InventoryEntry>,
    auction: AuctionTrigger,
    a: InventoryEntry,
    b: InventoryEntry,
)
    requires
        s.contains(a),
        s.contains(b),
        eligible(a, auction),
        eligible(b, auction),
        a.bid.price == b.bid.price,
        a.bid.id < b.bid.id,
    ensures
        best_entry(s, auction) is Some,
        best_entry(s, auction) != Some(b),
{
    lemma_best_entry_props(s, auction);
    let ka = choose|k: int| 0 <= k < s.len() && s[k] == a;
    match best_entry(s, auction) {
        None => {
            assert(!eligible(s[ka], auction));
        },
        Some(w) => {
            if w == b {
                assert(!prefers(s[ka], w));
                assert(prefers(a, b));
            }
        },
    }
}

} // verus!
