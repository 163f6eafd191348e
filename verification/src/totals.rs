//! Running totals by denomination.

use vstd::prelude::*;

use crate::bank::{
    ascending, coins_amount, is_listing, lemma_amount_listed, lemma_ascending_distinct, lists,
    Coin, CoinView,
};
use crate::error::AirdropError;
use crate::order::{
    denom_before, lemma_before_asymmetric, lemma_before_transitive, place, Place,
};
use crate::views;

verus! {

/// What coins in any order hold, as a mapping from each denomination they
/// list to the amount they hold of it.
pub open spec fn holdings(coins: Seq<CoinView>) -> Map<Seq<char>, nat> {
    Map::new(|denom: Seq<char>| lists(coins, denom), |denom: Seq<char>| coins_amount(coins, denom))
}

/// The total that `totals` keeps for `denom`: nothing where it does not know it.
pub open spec fn total_of(totals: Map<Seq<char>, nat>, denom: Seq<char>) -> nat {
    if totals.contains_key(denom) {
        totals[denom]
    } else {
        0
    }
}

/// Running totals, one for each denomination credited so far.
pub struct DenomTotals {
    coins: Vec<Coin>,
}

impl View for DenomTotals {
    type V = Map<Seq<char>, nat>;

    closed spec fn view(&self) -> Map<Seq<char>, nat> {
        holdings(views(self.coins@))
    }
}

/// Ascending coins are the listing of what they hold.
pub proof fn lemma_listing_of_holdings(coins: Seq<CoinView>)
    requires
        ascending(coins),
    ensures
        is_listing(coins, holdings(coins)),
{
    assert forall|i: int| 0 <= i < coins.len() implies (#[trigger] coins[i]).amount == holdings(
        coins,
    )[coins[i].denom] by {
        lemma_amount_listed(coins, i);
    }
}

impl DenomTotals {
    #[verifier::type_invariant]
    spec fn sorted(self) -> bool {
        ascending(views(self.coins@))
    }

    /// No totals yet.
    pub fn new() -> (totals: DenomTotals)
        ensures
            totals@ == Map::<Seq<char>, nat>::empty(),
    {
        let totals = DenomTotals { coins: Vec::new() };
        assert(totals@ =~= Map::<Seq<char>, nat>::empty());
        totals
    }

    /// Adds `amount` to the total of `denom`, which starts at nothing.
    ///
    /// A total that would pass 128 bits is refused, and nothing changes.
    pub fn credit(&mut self, denom: &str, amount: u128) -> (res: Result<(), AirdropError>)
        ensures
            match res {
                Ok(()) => {
                    &&& total_of(old(self)@, denom@) + amount <= u128::MAX
                    &&& final(self)@ == old(self)@.insert(
                        denom@,
                        (total_of(old(self)@, denom@) + amount) as nat,
                    )
                },
                Err(e) => {
                    &&& e == AirdropError::ArithmeticOverflow
                    &&& total_of(old(self)@, denom@) + amount > u128::MAX
                    &&& final(self)@ == old(self)@
                },
            },
    {
        proof {
            use_type_invariant(&*self);
        }
        let ghost before = views(self.coins@);
        let n = self.coins.len();
        let mut i: usize = 0;
        let mut found = false;
        while i < n
            invariant_except_break
                !found,
            invariant
                n == self.coins.len(),
                before == views(self.coins@),
                i <= n,
                forall|j: int| 0 <= j < i ==> denom_before(#[trigger] before[j].denom, denom@),
            ensures
                i <= n,
                found ==> i < n && before[i as int].denom == denom@,
                !found && i < n ==> denom_before(denom@, before[i as int].denom),
            decreases n - i,
        {
            match place(self.coins[i].denom.as_str(), denom) {
                Place::Before => {},
                Place::Same => {
                    found = true;
                    break ;
                },
                Place::After => {
                    break ;
                },
            }
            i += 1;
        }
        let sum = if found {
            proof {
                lemma_amount_listed(before, i as int);
            }
            match self.coins[i].amount.checked_add(amount) {
                Some(sum) => sum,
                None => {
                    return Err(AirdropError::ArithmeticOverflow);
                },
            }
        } else {
            amount
        };
        let coin = Coin { denom: denom.to_owned(), amount: sum };
        let mut coins: Vec<Coin> = Vec::new();
        core::mem::swap(&mut self.coins, &mut coins);
        if found {
            proof {
                lemma_replaced(before, i as int, coin@);
            }
            coins.set(i, coin);
            assert(views(coins@) =~= before.update(i as int, coin@));
        } else {
            proof {
                lemma_inserted(before, i as int, coin@);
            }
            coins.insert(i, coin);
            assert(views(coins@) =~= before.insert(i as int, coin@));
        }
        self.coins = coins;
        Ok(())
    }

    /// The totals as coins, in the order of their denominations.
    pub fn into_coins(self) -> (coins: Vec<Coin>)
        ensures
            is_listing(views(coins@), self@),
    {
        proof {
            use_type_invariant(&self);
            lemma_listing_of_holdings(views(self.coins@));
        }
        self.coins
    }
}

/// What coins hold of `denom` once `coin` has taken the place of its
/// denomination among them.
spec fn amount_after(coins: Seq<CoinView>, coin: CoinView, denom: Seq<char>) -> nat {
    if denom == coin.denom {
        coin.amount
    } else {
        coins_amount(coins, denom)
    }
}

/// Replacing a coin of ascending coins by one of the same denomination keeps
/// the order and changes what they hold of that denomination only.
proof fn lemma_replaced(coins: Seq<CoinView>, i: int, coin: CoinView)
    requires
        ascending(coins),
        0 <= i < coins.len(),
        coin.denom == coins[i].denom,
    ensures
        ascending(coins.update(i, coin)),
        holdings(coins.update(i, coin)) == holdings(coins).insert(coin.denom, coin.amount),
{
    let after = coins.update(i, coin);
    assert forall|a: int, b: int| 0 <= a < b < after.len() implies denom_before(
        after[a].denom,
        after[b].denom,
    ) by {
        assert(denom_before(coins[a].denom, coins[b].denom));
    }
    assert forall|denom: Seq<char>| lists(after, denom) <==> lists(coins, denom) by {
        if lists(after, denom) {
            let k = choose|k: int| 0 <= k < after.len() && #[trigger] after[k].denom == denom;
            assert(coins[k].denom == denom);
        }
        if lists(coins, denom) {
            let k = choose|k: int| 0 <= k < coins.len() && #[trigger] coins[k].denom == denom;
            assert(after[k].denom == denom);
        }
    }
    assert(after[i].denom == coin.denom);
    assert forall|denom: Seq<char>| lists(after, denom) implies coins_amount(after, denom)
        == amount_after(coins, coin, denom) by {
        let k = choose|k: int| 0 <= k < after.len() && #[trigger] after[k].denom == denom;
        lemma_amount_listed(after, k);
        lemma_amount_listed(coins, k);
        if denom == coin.denom {
            lemma_ascending_distinct(after, k, i);
        }
    }
    assert(holdings(after) =~= holdings(coins).insert(coin.denom, coin.amount));
}

/// Putting a coin of a new denomination in its place keeps the order and
/// adds its denomination to what the coins hold.
proof fn lemma_inserted(coins: Seq<CoinView>, i: int, coin: CoinView)
    requires
        ascending(coins),
        0 <= i <= coins.len(),
        forall|j: int| 0 <= j < i ==> denom_before(#[trigger] coins[j].denom, coin.denom),
        i < coins.len() ==> denom_before(coin.denom, coins[i].denom),
    ensures
        ascending(coins.insert(i, coin)),
        !lists(coins, coin.denom),
        holdings(coins.insert(i, coin)) == holdings(coins).insert(coin.denom, coin.amount),
{
    let after = coins.insert(i, coin);
    assert forall|j: int| i <= j < coins.len() implies denom_before(
        coin.denom,
        #[trigger] coins[j].denom,
    ) by {
        if i < j {
            assert(denom_before(coins[i].denom, coins[j].denom));
            lemma_before_transitive(coin.denom, coins[i].denom, coins[j].denom);
        }
    }
    assert forall|a: int, b: int| 0 <= a < b < after.len() implies denom_before(
        after[a].denom,
        after[b].denom,
    ) by {
        if a < i && b > i {
            assert(denom_before(coins[a].denom, coins[b - 1].denom));
        } else if a < i && b < i {
            assert(denom_before(coins[a].denom, coins[b].denom));
        } else if a > i {
            assert(denom_before(coins[a - 1].denom, coins[b - 1].denom));
        }
    }
    assert forall|k: int| 0 <= k < coins.len() implies (#[trigger] coins[k]).denom
        != coin.denom by {
        lemma_before_asymmetric(coins[k].denom, coin.denom);
    }
    assert(after[i].denom == coin.denom);
    assert forall|denom: Seq<char>| lists(after, denom) <==> (lists(coins, denom) || denom
        == coin.denom) by {
        if lists(after, denom) && denom != coin.denom {
            let k = choose|k: int| 0 <= k < after.len() && #[trigger] after[k].denom == denom;
            if k < i {
                assert(coins[k].denom == denom);
            } else {
                assert(coins[k - 1].denom == denom);
            }
        }
        if lists(coins, denom) {
            let k = choose|k: int| 0 <= k < coins.len() && #[trigger] coins[k].denom == denom;
            if k < i {
                assert(after[k].denom == denom);
            } else {
                assert(after[k + 1].denom == denom);
            }
        }
    }
    assert forall|denom: Seq<char>| lists(after, denom) implies coins_amount(after, denom)
        == amount_after(coins, coin, denom) by {
        let k = choose|k: int| 0 <= k < after.len() && #[trigger] after[k].denom == denom;
        lemma_amount_listed(after, k);
        if denom == coin.denom {
            lemma_ascending_distinct(after, k, i);
        } else if k < i {
            lemma_amount_listed(coins, k);
        } else {
            lemma_amount_listed(coins, k - 1);
        }
    }
    assert(holdings(after) =~= holdings(coins).insert(coin.denom, coin.amount));
}

} // verus!
