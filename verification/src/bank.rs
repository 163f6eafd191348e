//! Coins and the entries of a multi-party transfer, and what it means for
//! coins to hold an amount, to stand in order, and to list totals.

use vstd::prelude::*;

use crate::order::{denom_before, lemma_before_asymmetric};
use crate::views;

verus! {

/// An amount of one denomination.
#[derive(Clone, Debug, PartialEq, Eq)]
pub struct Coin {
    /// The denomination.
    pub denom: String,
    /// The amount, in units of `denom`.
    pub amount: u128,
}

/// What a [`Coin`] stands for.
pub struct CoinView {
    pub denom: Seq<char>,
    pub amount: nat,
}

impl View for Coin {
    type V = CoinView;

    open spec fn view(&self) -> CoinView {
        CoinView { denom: self.denom@, amount: self.amount as nat }
    }
}

/// One side of a multi-party transfer: the coins that leave, or reach, an address.
#[derive(Clone, Debug, PartialEq, Eq)]
pub struct MultiSendIo {
    /// The address that `coins` leave or reach.
    pub address: String,
    /// The coins that leave or reach `address`.
    pub coins: Vec<Coin>,
}

/// What a [`MultiSendIo`] stands for.
pub struct MultiSendIoView {
    pub address: Seq<char>,
    pub coins: Seq<CoinView>,
}

impl View for MultiSendIo {
    type V = MultiSendIoView;

    open spec fn view(&self) -> MultiSendIoView {
        MultiSendIoView { address: self.address@, coins: views(self.coins@) }
    }
}

/// The amount of `denom` that `coins` hold together.
pub open spec fn coins_amount(coins: Seq<CoinView>, denom: Seq<char>) -> nat
    decreases coins.len(),
{
    if coins.len() == 0 {
        0
    } else {
        coins_amount(coins.drop_last(), denom) + if coins.last().denom == denom {
            coins.last().amount
        } else {
            0
        }
    }
}

/// The amount of `denom` that the coins of all `entries` hold together.
pub open spec fn entries_amount(entries: Seq<MultiSendIoView>, denom: Seq<char>) -> nat
    decreases entries.len(),
{
    if entries.len() == 0 {
        0
    } else {
        entries_amount(entries.drop_last(), denom) + coins_amount(entries.last().coins, denom)
    }
}

/// A transfer is balanced when, for every denomination, its inputs hold
/// exactly what its outputs hold.
pub open spec fn balanced(inputs: Seq<MultiSendIoView>, outputs: Seq<MultiSendIoView>) -> bool {
    forall|denom: Seq<char>| entries_amount(inputs, denom) == entries_amount(outputs, denom)
}

/// Some coin of `coins` is of `denom`.
pub open spec fn lists(coins: Seq<CoinView>, denom: Seq<char>) -> bool {
    exists|i: int| 0 <= i < coins.len() && #[trigger] coins[i].denom == denom
}

/// The coins stand in the order of their denominations, each denomination once.
pub open spec fn ascending(coins: Seq<CoinView>) -> bool {
    forall|i: int, j: int|
        #![trigger coins[i], coins[j]]
        0 <= i < j < coins.len() ==> denom_before(coins[i].denom, coins[j].denom)
}

/// `coins` is the listing of `totals`: one coin for each denomination that
/// `totals` knows, with its total, in the order of the denominations.
pub open spec fn is_listing(coins: Seq<CoinView>, totals: Map<Seq<char>, nat>) -> bool {
    &&& ascending(coins)
    &&& forall|denom: Seq<char>|
        #![trigger lists(coins, denom)]
        #![trigger totals.contains_key(denom)]
        lists(coins, denom) <==> totals.contains_key(denom)
    &&& forall|i: int| 0 <= i < coins.len() ==> (#[trigger] coins[i]).amount == totals[coins[i].denom]
}

/// Coins in ascending order are of different denominations.
pub proof fn lemma_ascending_distinct(coins: Seq<CoinView>, i: int, j: int)
    requires
        ascending(coins),
        0 <= i < coins.len(),
        0 <= j < coins.len(),
        coins[i].denom == coins[j].denom,
    ensures
        i == j,
{
    lemma_before_asymmetric(coins[i].denom, coins[j].denom);
}

/// Coins that list no `denom` hold nothing of it.
pub proof fn lemma_amount_unlisted(coins: Seq<CoinView>, denom: Seq<char>)
    requires
        !lists(coins, denom),
    ensures
        coins_amount(coins, denom) == 0,
    decreases coins.len(),
{
    if coins.len() > 0 {
        let front = coins.drop_last();
        assert forall|i: int| 0 <= i < front.len() implies front[i].denom != denom by {
            assert(coins[i].denom != denom);
        }
        assert(coins[coins.len() - 1].denom != denom);
        lemma_amount_unlisted(front, denom);
    }
}

/// In ascending coins, what they hold of a listed denomination is the
/// amount of the one coin that is of it.
pub proof fn lemma_amount_listed(coins: Seq<CoinView>, i: int)
    requires
        ascending(coins),
        0 <= i < coins.len(),
    ensures
        coins_amount(coins, coins[i].denom) == coins[i].amount,
    decreases coins.len(),
{
    let front = coins.drop_last();
    let denom = coins[i].denom;
    assert forall|a: int, b: int| 0 <= a < b < front.len() implies denom_before(
        front[a].denom,
        front[b].denom,
    ) by {
        assert(denom_before(coins[a].denom, coins[b].denom));
    }
    if i == coins.len() - 1 {
        assert forall|k: int| 0 <= k < front.len() implies front[k].denom != denom by {
            if coins[k].denom == denom {
                lemma_ascending_distinct(coins, k, i);
            }
        }
        lemma_amount_unlisted(front, denom);
    } else {
        if coins.last().denom == denom {
            lemma_ascending_distinct(coins, coins.len() - 1, i);
        }
        lemma_amount_listed(front, i);
    }
}

/// The front of ascending coins is the listing of what is left of `totals`
/// without the last coin's denomination.
proof fn lemma_listing_front(coins: Seq<CoinView>, totals: Map<Seq<char>, nat>)
    requires
        is_listing(coins, totals),
        coins.len() > 0,
    ensures
        is_listing(coins.drop_last(), totals.remove(coins.last().denom)),
{
    let front = coins.drop_last();
    let last = coins.len() - 1;
    let rest = totals.remove(coins.last().denom);
    assert forall|a: int, b: int| 0 <= a < b < front.len() implies denom_before(
        front[a].denom,
        front[b].denom,
    ) by {
        assert(denom_before(coins[a].denom, coins[b].denom));
    }
    assert forall|denom: Seq<char>| lists(front, denom) <==> rest.contains_key(denom) by {
        if lists(front, denom) {
            let k = choose|k: int| 0 <= k < front.len() && #[trigger] front[k].denom == denom;
            assert(coins[k].denom == denom);
            if denom == coins[last].denom {
                lemma_ascending_distinct(coins, k, last);
            }
        }
        if rest.contains_key(denom) {
            let k = choose|k: int| 0 <= k < coins.len() && #[trigger] coins[k].denom == denom;
            assert(front[k].denom == denom);
        }
    }
    assert forall|i: int| 0 <= i < front.len() implies (#[trigger] front[i]).amount
        == rest[front[i].denom] by {
        assert(coins[i].amount == totals[coins[i].denom]);
        if coins[i].denom == coins[last].denom {
            lemma_ascending_distinct(coins, i, last);
        }
    }
}

/// The last of ascending coins is of the denomination that comes after all
/// that `totals` knows.
proof fn lemma_listing_last(a: Seq<CoinView>, b: Seq<CoinView>, totals: Map<Seq<char>, nat>)
    requires
        is_listing(a, totals),
        is_listing(b, totals),
        a.len() > 0,
    ensures
        b.len() > 0,
        a.last() == b.last(),
{
    let x = a.last();
    assert(a[a.len() - 1].denom == x.denom);
    assert(lists(a, x.denom));
    assert(lists(b, x.denom));
    let m = choose|m: int| 0 <= m < b.len() && #[trigger] b[m].denom == x.denom;
    let y = b.last();
    assert(b[b.len() - 1].denom == y.denom);
    assert(lists(b, y.denom));
    assert(lists(a, y.denom));
    let k = choose|k: int| 0 <= k < a.len() && #[trigger] a[k].denom == y.denom;
    if x.denom != y.denom {
        assert(denom_before(a[k].denom, a[a.len() - 1].denom));
        assert(denom_before(b[m].denom, b[b.len() - 1].denom));
        lemma_before_asymmetric(x.denom, y.denom);
    }
    assert(a[a.len() - 1].amount == totals[x.denom]);
    assert(b[b.len() - 1].amount == totals[y.denom]);
}

/// Totals have one listing only.
pub proof fn lemma_listing_unique(a: Seq<CoinView>, b: Seq<CoinView>, totals: Map<Seq<char>, nat>)
    requires
        is_listing(a, totals),
        is_listing(b, totals),
    ensures
        a == b,
    decreases a.len(),
{
    if a.len() == 0 {
        if b.len() > 0 {
            lemma_listing_last(b, a, totals);
        }
        assert(a =~= b);
    } else {
        lemma_listing_last(a, b, totals);
        lemma_listing_front(a, totals);
        lemma_listing_front(b, totals);
        lemma_listing_unique(a.drop_last(), b.drop_last(), totals.remove(a.last().denom));
        assert(a =~= a.drop_last().push(a.last()));
        assert(b =~= b.drop_last().push(b.last()));
    }
}

} // verus!
