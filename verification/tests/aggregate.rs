use cosmos_airdrop::aggregate::multi_send_args;
use cosmos_airdrop::bank::{Coin, MultiSendIo};
use cosmos_airdrop::error::AirdropError;
use cosmos_airdrop::message::Message;
use cosmos_airdrop::order::{place, Place};
use cosmos_airdrop::payments::{Payment, PaymentsToml};
use cosmos_airdrop::totals::DenomTotals;

fn paid(recipient: &str, amount: u64, denom: &str) -> Payment {
    Payment { recipient: recipient.to_string(), amount, denom: denom.to_string() }
}

fn coins(list: &[(&str, u128)]) -> Vec<Coin> {
    list.iter().map(|(denom, amount)| Coin { denom: denom.to_string(), amount: *amount }).collect()
}

fn io(address: &str, list: &[(&str, u128)]) -> MultiSendIo {
    MultiSendIo { address: address.to_string(), coins: coins(list) }
}

#[test]
fn treasury_pays_alice_bob_and_carol() {
    let batch =
        vec![paid("alice", 100, "coin"), paid("bob", 35, "gem"), paid("carol", 10, "coin")];
    let (inputs, outputs) = multi_send_args("treasury", &batch);
    assert_eq!(inputs, vec![io("treasury", &[("coin", 110), ("gem", 35)])]);
    assert_eq!(
        outputs,
        vec![
            io("alice", &[("coin", 100)]),
            io("bob", &[("gem", 35)]),
            io("carol", &[("coin", 10)]),
        ]
    );
}

#[test]
fn ten_payments_of_a_thousand_total_ten_thousand() {
    let batch: Vec<Payment> = (0..10).map(|_| paid("dave", 1000, "utest")).collect();
    let (inputs, outputs) = multi_send_args("treasury", &batch);
    assert_eq!(inputs, vec![io("treasury", &[("utest", 10000)])]);
    assert_eq!(outputs, vec![io("dave", &[("utest", 1000)]); 10]);
}

#[test]
fn totals_are_kept_in_128_bits() {
    let batch: Vec<Payment> = (0..5).map(|_| paid("erin", u64::MAX, "big")).collect();
    let (inputs, outputs) = multi_send_args("treasury", &batch);
    assert_eq!(inputs, vec![io("treasury", &[("big", 5 * (u64::MAX as u128))])]);
    assert_eq!(inputs[0].coins[0].amount, 92233720368547758075u128);
    assert_eq!(outputs.len(), 5);
}

#[test]
fn the_input_lists_denominations_in_byte_order_whatever_the_batch_order() {
    let batch = vec![
        paid("a", 1, "zeta"),
        paid("b", 2, "Zeta"),
        paid("c", 3, "alpha"),
        paid("d", 4, "alphabet"),
        paid("e", 5, "\u{e9}cu"),
        paid("f", 6, "alpha"),
        paid("g", 7, ""),
        paid("h", 8, "z"),
    ];
    let (inputs, outputs) = multi_send_args("s", &batch);
    assert_eq!(
        inputs,
        vec![io(
            "s",
            &[
                ("", 7),
                ("Zeta", 2),
                ("alpha", 9),
                ("alphabet", 4),
                ("z", 8),
                ("zeta", 1),
                ("\u{e9}cu", 5),
            ],
        )]
    );
    assert_eq!(outputs.len(), 8);
    assert_eq!(outputs[6], io("g", &[("", 7)]));
    let mut sorted: Vec<String> = batch.iter().map(|p| p.denom.clone()).collect();
    sorted.sort();
    sorted.dedup();
    let listed: Vec<String> = inputs[0].coins.iter().map(|c| c.denom.clone()).collect();
    assert_eq!(listed, sorted);
}

#[test]
fn an_empty_batch_aggregates_to_one_empty_input() {
    let (inputs, outputs) = multi_send_args("treasury", &Vec::new());
    assert_eq!(inputs, vec![io("treasury", &[])]);
    assert_eq!(outputs, Vec::new());
}

#[test]
fn aggregating_twice_gives_the_same_transfer() {
    let batch = vec![paid("alice", 100, "coin"), paid("bob", 35, "gem")];
    assert_eq!(multi_send_args("treasury", &batch), multi_send_args("treasury", &batch));
}

#[test]
fn place_orders_texts_by_their_bytes() {
    assert_eq!(place("coin", "gem"), Place::Before);
    assert_eq!(place("gem", "coin"), Place::After);
    assert_eq!(place("gem", "gem"), Place::Same);
    assert_eq!(place("", ""), Place::Same);
    assert_eq!(place("", "a"), Place::Before);
    assert_eq!(place("a", ""), Place::After);
    assert_eq!(place("coin", "coins"), Place::Before);
    assert_eq!(place("coins", "coin"), Place::After);
    assert_eq!(place("Z", "a"), Place::Before);
    assert_eq!(place("z", "\u{e9}"), Place::Before);
    assert_eq!(place("\u{e9}", "\u{20ac}"), Place::Before);
    assert_eq!(place("\u{ffff}", "\u{10000}"), Place::Before);
    for (a, b) in [("abc", "abd"), ("abc", "ab"), ("x", "x"), ("\u{e9}a", "\u{e9}b")] {
        let expected = match a.cmp(b) {
            std::cmp::Ordering::Less => Place::Before,
            std::cmp::Ordering::Equal => Place::Same,
            std::cmp::Ordering::Greater => Place::After,
        };
        assert_eq!(place(a, b), expected);
    }
}

#[test]
fn totals_merge_credits_and_list_them_in_order() {
    let mut totals = DenomTotals::new();
    assert_eq!(totals.credit("gem", 5), Ok(()));
    assert_eq!(totals.credit("coin", 7), Ok(()));
    assert_eq!(totals.credit("gem", 30), Ok(()));
    assert_eq!(totals.credit("ore", 0), Ok(()));
    assert_eq!(totals.credit("coin", 0), Ok(()));
    assert_eq!(totals.into_coins(), coins(&[("coin", 7), ("gem", 35), ("ore", 0)]));
    assert_eq!(DenomTotals::new().into_coins(), Vec::new());
}

#[test]
fn a_total_past_128_bits_is_refused_and_nothing_changes() {
    let mut totals = DenomTotals::new();
    assert_eq!(totals.credit("gem", u128::MAX - 1), Ok(()));
    assert_eq!(totals.credit("coin", u128::MAX), Ok(()));
    assert_eq!(totals.credit("gem", 2), Err(AirdropError::ArithmeticOverflow));
    assert_eq!(totals.credit("coin", 1), Err(AirdropError::ArithmeticOverflow));
    assert_eq!(totals.credit("gem", 1), Ok(()));
    assert_eq!(totals.credit("gem", 1), Err(AirdropError::ArithmeticOverflow));
    assert_eq!(totals.into_coins(), coins(&[("coin", u128::MAX), ("gem", u128::MAX)]));
}

#[test]
fn an_envelope_keeps_the_message_inside() {
    let inner = Message::multi_send(vec![io("g", &[("gem", 1)])], vec![io("r", &[("gem", 1)])]);
    let twice = inner.exec_by("g").exec_by("h");
    let expected = Message::Exec {
        grantee: "h".to_string(),
        msgs: vec![Message::Exec {
            grantee: "g".to_string(),
            msgs: vec![Message::MultiSend {
                inputs: vec![io("g", &[("gem", 1)])],
                outputs: vec![io("r", &[("gem", 1)])],
            }],
        }],
    };
    assert_eq!(twice, expected);
}

#[test]
fn a_batch_definition_keeps_what_it_is_given() {
    let payments = vec![
        paid("bob", 100, "dollarbucks"),
        paid("alice", 35, "dingos"),
        paid("frank", 10, "dollarbucks"),
    ];
    let with_grantee =
        PaymentsToml::new("~/.keys/sender_key", Some("~/.keys/grantee_key"), payments.clone());
    assert_eq!(
        with_grantee,
        PaymentsToml {
            sender_key: "~/.keys/sender_key".to_string(),
            grantee_key: Some("~/.keys/grantee_key".to_string()),
            payments: payments.clone(),
        }
    );
    let without = PaymentsToml::new("key", None, Vec::new());
    assert_eq!(
        without,
        PaymentsToml { sender_key: "key".to_string(), grantee_key: None, payments: Vec::new() }
    );
}

/// A small generator of numbers, the same on every run.
struct Numbers(u64);

impl Numbers {
    fn next(&mut self) -> u64 {
        self.0 = self.0.wrapping_mul(6364136223846793005).wrapping_add(1442695040888963407);
        self.0 >> 33
    }

    fn text(&mut self, alphabet: &[char], longest: u64) -> String {
        let length = self.next() % (longest + 1);
        (0..length).map(|_| alphabet[(self.next() % alphabet.len() as u64) as usize]).collect()
    }
}

#[test]
fn place_agrees_with_the_order_of_str_on_many_texts() {
    let alphabet = ['a', 'b', 'Z', '0', '/', '\u{e9}', '\u{20ac}', '\u{1f600}'];
    let mut numbers = Numbers(7);
    for _ in 0..2000 {
        let a = numbers.text(&alphabet, 4);
        let b = numbers.text(&alphabet, 4);
        let expected = match a.as_str().cmp(b.as_str()) {
            std::cmp::Ordering::Less => Place::Before,
            std::cmp::Ordering::Equal => Place::Same,
            std::cmp::Ordering::Greater => Place::After,
        };
        assert_eq!(place(&a, &b), expected);
    }
}

#[test]
fn many_batches_are_conserved_and_listed_in_order() {
    let alphabet = ['a', 'b', 'c'];
    let mut numbers = Numbers(11);
    for _ in 0..200 {
        let size = numbers.next() % 12;
        let batch: Vec<Payment> = (0..size)
            .map(|_| {
                let recipient = numbers.text(&alphabet, 2);
                let denom = numbers.text(&alphabet, 2);
                let amount = if numbers.next() % 4 == 0 { u64::MAX } else { numbers.next() % 5 };
                paid(&recipient, amount, &denom)
            })
            .collect();
        let (inputs, outputs) = multi_send_args("sender", &batch);
        assert_eq!(inputs.len(), 1);
        assert_eq!(inputs[0].address, "sender");
        assert_eq!(outputs.len(), batch.len());
        for (output, payment) in outputs.iter().zip(batch.iter()) {
            assert_eq!(output, &io(&payment.recipient, &[(&payment.denom, payment.amount as u128)]));
        }
        let mut denoms: Vec<String> = batch.iter().map(|p| p.denom.clone()).collect();
        denoms.sort();
        denoms.dedup();
        let listed: Vec<String> = inputs[0].coins.iter().map(|c| c.denom.clone()).collect();
        assert_eq!(listed, denoms);
        for coin in &inputs[0].coins {
            let total: u128 =
                batch.iter().filter(|p| p.denom == coin.denom).map(|p| p.amount as u128).sum();
            assert_eq!(coin.amount, total);
        }
    }
}
