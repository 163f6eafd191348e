//! From accepted payments to the inputs and outputs of one transfer, with
//! the laws that the transfer obeys.

use vstd::pervasive::unreached;
use vstd::prelude::*;

use crate::bank::{
    balanced, coins_amount, entries_amount, is_listing, lemma_amount_listed,
    lemma_amount_unlisted, lemma_listing_unique, lists, Coin, CoinView, MultiSendIo,
    MultiSendIoView,
};
use crate::payments::{Payment, PaymentView};
use crate::totals::{total_of, DenomTotals};
use crate::views;

verus! {

/// Some payment of the batch is in `denom`.
pub open spec fn mentions(payments: Seq<PaymentView>, denom: Seq<char>) -> bool {
    exists|i: int| 0 <= i < payments.len() && #[trigger] payments[i].denom == denom
}

/// The sum of the amounts of the payments that are in `denom`.
pub open spec fn payments_amount(payments: Seq<PaymentView>, denom: Seq<char>) -> nat
    decreases payments.len(),
{
    if payments.len() == 0 {
        0
    } else {
        payments_amount(payments.drop_last(), denom) + if payments.last().denom == denom {
            payments.last().amount
        } else {
            0
        }
    }
}

/// The total of each denomination that the batch mentions.
pub open spec fn totals_of(payments: Seq<PaymentView>) -> Map<Seq<char>, nat> {
    Map::new(
        |denom: Seq<char>| mentions(payments, denom),
        |denom: Seq<char>| payments_amount(payments, denom),
    )
}

/// The output that a payment becomes: its one coin, for its recipient.
pub open spec fn output_of(payment: PaymentView) -> MultiSendIoView {
    MultiSendIoView {
        address: payment.recipient,
        coins: seq![CoinView { denom: payment.denom, amount: payment.amount }],
    }
}

/// `inputs` and `outputs` are the multi-party transfer that pays the batch
/// from `sender`: one output for each payment, in the batch's order, and a
/// single input that lists for `sender` the total of each denomination.
pub open spec fn is_multi_send_of(
    inputs: Seq<MultiSendIoView>,
    outputs: Seq<MultiSendIoView>,
    sender: Seq<char>,
    payments: Seq<PaymentView>,
) -> bool {
    &&& inputs.len() == 1
    &&& inputs[0].address == sender
    &&& is_listing(inputs[0].coins, totals_of(payments))
    &&& outputs.len() == payments.len()
    &&& forall|i: int| 0 <= i < payments.len() ==> outputs[i] == output_of(#[trigger] payments[i])
}

/// A batch that mentions no `denom` pays nothing in it.
pub proof fn lemma_amount_unmentioned(payments: Seq<PaymentView>, denom: Seq<char>)
    requires
        !mentions(payments, denom),
    ensures
        payments_amount(payments, denom) == 0,
    decreases payments.len(),
{
    if payments.len() > 0 {
        let front = payments.drop_last();
        assert forall|i: int| 0 <= i < front.len() implies front[i].denom != denom by {
            assert(payments[i].denom != denom);
        }
        assert(payments[payments.len() - 1].denom != denom);
        lemma_amount_unmentioned(front, denom);
    }
}

/// A batch of 64-bit amounts pays in one denomination at most as many times
/// the largest such amount as it has payments.
pub proof fn lemma_amount_bound(payments: Seq<PaymentView>, denom: Seq<char>)
    requires
        forall|i: int| 0 <= i < payments.len() ==> (#[trigger] payments[i]).amount <= u64::MAX,
    ensures
        payments_amount(payments, denom) <= payments.len() * u64::MAX,
    decreases payments.len(),
{
    if payments.len() > 0 {
        let front = payments.drop_last();
        assert forall|i: int| 0 <= i < front.len() implies (#[trigger] front[i]).amount
            <= u64::MAX by {
            assert(payments[i].amount <= u64::MAX);
        }
        assert(payments[payments.len() - 1].amount <= u64::MAX);
        lemma_amount_bound(front, denom);
    }
}

/// One more payment raises the total of its denomination by its amount and
/// leaves the other totals as they are.
pub proof fn lemma_totals_step(payments: Seq<PaymentView>, payment: PaymentView)
    ensures
        total_of(totals_of(payments), payment.denom) == payments_amount(payments, payment.denom),
        totals_of(payments.push(payment)) == totals_of(payments).insert(
            payment.denom,
            payments_amount(payments, payment.denom) + payment.amount,
        ),
{
    let more = payments.push(payment);
    assert(more.drop_last() =~= payments);
    if !mentions(payments, payment.denom) {
        lemma_amount_unmentioned(payments, payment.denom);
    }
    assert(more[payments.len() as int].denom == payment.denom);
    assert forall|denom: Seq<char>| mentions(more, denom) <==> (mentions(payments, denom) || denom
        == payment.denom) by {
        if mentions(more, denom) && denom != payment.denom {
            let k = choose|k: int| 0 <= k < more.len() && #[trigger] more[k].denom == denom;
            assert(payments[k].denom == denom);
        }
        if mentions(payments, denom) {
            let k = choose|k: int| 0 <= k < payments.len() && #[trigger] payments[k].denom == denom;
            assert(more[k].denom == denom);
        }
    }
    assert(totals_of(more) =~= totals_of(payments).insert(
        payment.denom,
        payments_amount(payments, payment.denom) + payment.amount,
    ));
}

/// Builds the inputs and the outputs of the multi-party transfer that pays
/// `payments` from `sender_address`.
///
/// Each payment becomes one output of its own, in the batch's order, also
/// where a recipient occurs again or an amount is zero. The single input
/// lists, for the sender, the total of each denomination that the batch
/// mentions, in the order of the denominations. Addresses and denominations
/// are taken as they stand: this is the step that follows their validation.
pub fn multi_send_args(
    sender_address: &str,
    payments: &Vec<Payment>,
) -> (args: (Vec<MultiSendIo>, Vec<MultiSendIo>))
    ensures
        is_multi_send_of(views(args.0@), views(args.1@), sender_address@, views(payments@)),
        args.0.len() == 1,
        args.1.len() == payments.len(),
        balanced(views(args.0@), views(args.1@)),
{
    let ghost batch = views(payments@);
    let mut outputs: Vec<MultiSendIo> = Vec::new();
    let mut totals = DenomTotals::new();
    let mut i: usize = 0;
    assert(totals_of(batch.take(0)) =~= Map::<Seq<char>, nat>::empty());
    while i < payments.len()
        invariant
            batch == views(payments@),
            i <= payments.len(),
            totals@ == totals_of(batch.take(i as int)),
            outputs.len() == i,
            forall|j: int| 0 <= j < i ==> views(outputs@)[j] == output_of(#[trigger] batch[j]),
        decreases payments.len() - i,
    {
        let payment = &payments[i];
        let ghost paid = batch.take(i as int);
        proof {
            assert(batch[i as int] == payment@);
            assert(batch.take(i + 1) =~= paid.push(payment@));
            lemma_amount_bound(paid, payment.denom@);
            lemma_totals_step(paid, payment@);
            assert(paid.len() * u64::MAX + u64::MAX <= u128::MAX) by (nonlinear_arith)
                requires
                    paid.len() <= u64::MAX,
            ;
        }
        match totals.credit(payment.denom.as_str(), payment.amount as u128) {
            Ok(()) => {},
            Err(_) => unreached(),
        }
        let coin = Coin { denom: payment.denom.clone(), amount: payment.amount as u128 };
        let mut coins: Vec<Coin> = Vec::new();
        coins.push(coin);
        let output = MultiSendIo { address: payment.recipient.clone(), coins };
        proof {
            assert(output@.coins =~= output_of(payment@).coins);
            assert(output@ == output_of(payment@));
        }
        let ghost earlier = views(outputs@);
        outputs.push(output);
        proof {
            assert forall|j: int| 0 <= j < i + 1 implies views(outputs@)[j] == output_of(
                #[trigger] batch[j],
            ) by {
                if j < i {
                    assert(views(outputs@)[j] == earlier[j]);
                }
            }
        }
        i += 1;
    }
    assert(batch.take(i as int) =~= batch);
    let input = MultiSendIo { address: sender_address.to_owned(), coins: totals.into_coins() };
    let mut inputs: Vec<MultiSendIo> = Vec::new();
    inputs.push(input);
    proof {
        lemma_multi_send_balanced(views(inputs@), views(outputs@), sender_address@, batch);
    }
    (inputs, outputs)
}

/// What the outputs of a batch hold of a denomination is what the batch pays in it.
pub proof fn lemma_outputs_amount(
    outputs: Seq<MultiSendIoView>,
    payments: Seq<PaymentView>,
    denom: Seq<char>,
)
    requires
        outputs.len() == payments.len(),
        forall|i: int| 0 <= i < payments.len() ==> outputs[i] == output_of(#[trigger] payments[i]),
    ensures
        entries_amount(outputs, denom) == payments_amount(payments, denom),
    decreases payments.len(),
{
    if payments.len() > 0 {
        let last = payments.len() - 1;
        assert(outputs[last] == output_of(payments[last]));
        let coins = outputs[last].coins;
        assert(coins.drop_last() =~= Seq::<CoinView>::empty());
        assert(coins_amount(coins.drop_last(), denom) == 0);
        assert(coins_amount(coins, denom) == if payments[last].denom == denom {
            payments[last].amount
        } else {
            0
        });
        assert forall|i: int| 0 <= i < payments.drop_last().len() implies outputs.drop_last()[i]
            == output_of(#[trigger] payments.drop_last()[i]) by {
            assert(outputs[i] == output_of(payments[i]));
        }
        lemma_outputs_amount(outputs.drop_last(), payments.drop_last(), denom);
    }
}

/// The transfer that pays a batch conserves every denomination: its input
/// holds of each exactly what its outputs hold of it.
pub proof fn lemma_multi_send_balanced(
    inputs: Seq<MultiSendIoView>,
    outputs: Seq<MultiSendIoView>,
    sender: Seq<char>,
    payments: Seq<PaymentView>,
)
    requires
        is_multi_send_of(inputs, outputs, sender, payments),
    ensures
        balanced(inputs, outputs),
{
    let coins = inputs[0].coins;
    assert forall|denom: Seq<char>| entries_amount(inputs, denom) == entries_amount(
        outputs,
        denom,
    ) by {
        lemma_outputs_amount(outputs, payments, denom);
        assert(inputs.drop_last() =~= Seq::<MultiSendIoView>::empty());
        assert(entries_amount(inputs.drop_last(), denom) == 0);
        assert(entries_amount(inputs, denom) == coins_amount(coins, denom));
        if lists(coins, denom) {
            let k = choose|k: int| 0 <= k < coins.len() && #[trigger] coins[k].denom == denom;
            lemma_amount_listed(coins, k);
        } else {
            lemma_amount_unlisted(coins, denom);
            lemma_amount_unmentioned(payments, denom);
        }
    }
}

/// A batch and its sender have one transfer only: whatever builds it, and
/// however often, the inputs and the outputs are the same.
pub proof fn lemma_multi_send_unique(
    inputs: Seq<MultiSendIoView>,
    outputs: Seq<MultiSendIoView>,
    other_inputs: Seq<MultiSendIoView>,
    other_outputs: Seq<MultiSendIoView>,
    sender: Seq<char>,
    payments: Seq<PaymentView>,
)
    requires
        is_multi_send_of(inputs, outputs, sender, payments),
        is_multi_send_of(other_inputs, other_outputs, sender, payments),
    ensures
        inputs == other_inputs,
        outputs == other_outputs,
{
    lemma_listing_unique(inputs[0].coins, other_inputs[0].coins, totals_of(payments));
    assert(inputs[0] == other_inputs[0]);
    assert(inputs =~= other_inputs);
    assert forall|i: int| 0 <= i < outputs.len() implies outputs[i] == other_outputs[i] by {
        assert(outputs[i] == output_of(payments[i]));
        assert(other_outputs[i] == output_of(payments[i]));
    }
    assert(outputs =~= other_outputs);
}

/// The order of the payments does not show in the input: batches that
/// mention the same denominations and pay the same total in each have the
/// same input coins.
pub proof fn lemma_input_coins_by_totals(
    coins: Seq<CoinView>,
    other_coins: Seq<CoinView>,
    payments: Seq<PaymentView>,
    other_payments: Seq<PaymentView>,
)
    requires
        is_listing(coins, totals_of(payments)),
        is_listing(other_coins, totals_of(other_payments)),
        forall|denom: Seq<char>| mentions(payments, denom) == mentions(other_payments, denom),
        forall|denom: Seq<char>|
            payments_amount(payments, denom) == payments_amount(other_payments, denom),
    ensures
        coins == other_coins,
{
    assert(totals_of(payments) =~= totals_of(other_payments));
    lemma_listing_unique(coins, other_coins, totals_of(payments));
}

} // verus!
