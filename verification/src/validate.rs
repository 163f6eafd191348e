//! Which addresses and denominations are accepted, and in which order a
//! batch is held to them.

use std::str::FromStr;

use cosmrs::{AccountId, Denom};
use vstd::prelude::*;

use crate::error::AirdropError;
use crate::payments::{Payment, PaymentView};
use crate::views;

verus! {

/// The report with which the address and denomination parsers refuse a text.
#[verifier::external_type_specification]
#[verifier::external_body]
pub struct ExReport(eyre::Report);

/// What `cosmrs::AccountId::from_str` makes of a text: the account address
/// in the form in which the account identifier keeps it, or nothing where it
/// refuses the text.
///
/// The parser reads Bech32 and holds the text to its checksum. What it
/// returns is named here and not defined: the contracts below speak of the
/// parser's result without saying which texts are addresses.
pub uninterp spec fn account_id_from_str(text: Seq<char>) -> Option<Seq<char>>;

/// A character that a denomination may hold.
pub open spec fn is_denom_char(c: char) -> bool {
    ||| 'A' <= c <= 'Z'
    ||| 'a' <= c <= 'z'
    ||| '0' <= c <= '9'
    ||| c == '/'
    ||| c == ':'
    ||| c == '.'
    ||| c == '_'
    ||| c == '-'
}

/// A well-formed denomination: 3 to 128 characters, each a letter or digit
/// of ASCII or one of `/ : . _ -`.
pub open spec fn is_denom(text: Seq<char>) -> bool {
    &&& 3 <= text.len() <= 128
    &&& forall|i: int| 0 <= i < text.len() ==> is_denom_char(#[trigger] text[i])
}

/// Calls `cosmrs::AccountId::from_str` and hands out the address that the
/// account identifier holds.
///
/// Trusted: the result is the one that [`account_id_from_str`] names, so the
/// same text is always accepted or always refused, and accepted as the same
/// address.
#[verifier::external_body]
fn parse_account_id(text: &str) -> (parsed: Result<String, eyre::Report>)
    ensures
        match parsed {
            Ok(address) => account_id_from_str(text@) == Some(address@),
            Err(_) => account_id_from_str(text@) is None,
        },
{
    match AccountId::from_str(text) {
        Ok(id) => Ok(String::from(id)),
        Err(report) => Err(report),
    }
}

/// Calls `cosmrs::Denom::from_str` and hands out the text that the
/// denomination holds.
///
/// Trusted: the parser accepts exactly the texts of 3 to 128 bytes whose
/// characters are all letters or digits of ASCII or among `/ : . _ -`, and
/// keeps an accepted text as it is.
#[verifier::external_body]
fn parse_denom(text: &str) -> (parsed: Result<String, eyre::Report>)
    ensures
        match parsed {
            Ok(denom) => is_denom(text@) && denom@ == text@,
            Err(_) => !is_denom(text@),
        },
{
    match Denom::from_str(text) {
        Ok(denom) => Ok(denom.to_string()),
        Err(report) => Err(report),
    }
}

/// The address that `text` stands for, or why it stands for none.
pub fn accept_address(text: &str) -> (res: Result<String, AirdropError>)
    ensures
        match res {
            Ok(address) => account_id_from_str(text@) == Some(address@),
            Err(e) => e == AirdropError::AddressParse && account_id_from_str(text@) is None,
        },
{
    match parse_account_id(text) {
        Ok(address) => Ok(address),
        Err(_) => Err(AirdropError::AddressParse),
    }
}

/// The denomination `text`, or why it is none.
pub fn accept_denom(text: &str) -> (res: Result<String, AirdropError>)
    ensures
        match res {
            Ok(denom) => is_denom(text@) && denom@ == text@,
            Err(e) => e == AirdropError::DenominationParse && !is_denom(text@),
        },
{
    match parse_denom(text) {
        Ok(denom) => Ok(denom),
        Err(_) => Err(AirdropError::DenominationParse),
    }
}

/// Why a payment is refused, if it is: for its recipient's address first,
/// then for its denomination.
pub open spec fn payment_rejection(payment: PaymentView) -> Option<AirdropError> {
    if account_id_from_str(payment.recipient) is None {
        Some(AirdropError::AddressParse)
    } else if !is_denom(payment.denom) {
        Some(AirdropError::DenominationParse)
    } else {
        None
    }
}

/// An accepted payment: the same amount and denomination, for the address
/// that the recipient's text stands for.
pub open spec fn accepted(payment: PaymentView) -> PaymentView {
    PaymentView {
        recipient: account_id_from_str(payment.recipient).unwrap(),
        amount: payment.amount,
        denom: payment.denom,
    }
}

/// Payment `i` is the first of the batch that is refused.
pub open spec fn first_rejected(payments: Seq<PaymentView>, i: int) -> bool {
    &&& 0 <= i < payments.len()
    &&& payment_rejection(payments[i]) is Some
    &&& forall|j: int| 0 <= j < i ==> payment_rejection(#[trigger] payments[j]) is None
}

/// Why a batch is refused for one of its payments, if it is: for the first
/// payment that is refused.
pub open spec fn batch_rejection(payments: Seq<PaymentView>) -> Option<AirdropError> {
    if exists|i: int| first_rejected(payments, i) {
        payment_rejection(payments[choose|i: int| first_rejected(payments, i)])
    } else {
        None
    }
}

/// Why a batch from `sender` is refused, if it is: for the first payment that
/// is refused or, where none is, for the sender's address.
pub open spec fn rejection(sender: Seq<char>, payments: Seq<PaymentView>) -> Option<AirdropError> {
    if batch_rejection(payments) is Some {
        batch_rejection(payments)
    } else if account_id_from_str(sender) is None {
        Some(AirdropError::AddressParse)
    } else {
        None
    }
}

/// The payments of a batch as accepted, in the batch's order.
pub open spec fn accepted_batch(payments: Seq<PaymentView>) -> Seq<PaymentView> {
    Seq::new(payments.len(), |i: int| accepted(payments[i]))
}

/// A batch whose payment `i` is the first refused is refused for that payment.
pub proof fn lemma_rejected_for_first(payments: Seq<PaymentView>, i: int)
    requires
        first_rejected(payments, i),
    ensures
        batch_rejection(payments) == payment_rejection(payments[i]),
        batch_rejection(payments) is Some,
{
    let k = choose|k: int| first_rejected(payments, k);
    if k < i {
        assert(payment_rejection(payments[k]) is None);
    }
    if i < k {
        assert(payment_rejection(payments[i]) is None);
    }
}

/// Among the first `n` payments, either none is refused or one is the first.
proof fn lemma_first_among(payments: Seq<PaymentView>, n: int)
    requires
        0 <= n <= payments.len(),
    ensures
        (forall|j: int| 0 <= j < n ==> payment_rejection(#[trigger] payments[j]) is None) || (
        exists|i: int| i < n && first_rejected(payments, i)),
    decreases n,
{
    if n > 0 {
        lemma_first_among(payments, n - 1);
        if forall|j: int| 0 <= j < n - 1 ==> payment_rejection(#[trigger] payments[j]) is None {
            if payment_rejection(payments[n - 1]) is Some {
                assert(first_rejected(payments, n - 1));
            }
        } else {
            let i = choose|i: int| i < n - 1 && first_rejected(payments, i);
            assert(i < n && first_rejected(payments, i));
        }
    }
}

/// A batch is accepted exactly when each of its payments and its sender are.
pub proof fn lemma_rejection_none(sender: Seq<char>, payments: Seq<PaymentView>)
    ensures
        batch_rejection(payments) is None <==> forall|j: int|
            0 <= j < payments.len() ==> payment_rejection(#[trigger] payments[j]) is None,
        rejection(sender, payments) is None <==> batch_rejection(payments) is None
            && account_id_from_str(sender) is Some,
{
    lemma_first_among(payments, payments.len() as int);
    if exists|i: int| first_rejected(payments, i) {
        let i = choose|i: int| first_rejected(payments, i);
        lemma_rejected_for_first(payments, i);
    }
}

/// Validates one payment and hands it out as accepted.
pub fn accept_payment(payment: &Payment) -> (res: Result<Payment, AirdropError>)
    ensures
        match res {
            Ok(taken) => payment_rejection(payment@) is None && taken@ == accepted(payment@),
            Err(e) => payment_rejection(payment@) == Some(e),
        },
{
    let recipient = accept_address(payment.recipient.as_str())?;
    let denom = accept_denom(payment.denom.as_str())?;
    Ok(Payment { recipient, amount: payment.amount, denom })
}

/// Validates the payments of a batch in order and hands them out as accepted,
/// or says why the first one that is refused is refused.
pub fn accept_payments(payments: &Vec<Payment>) -> (res: Result<Vec<Payment>, AirdropError>)
    ensures
        match res {
            Ok(taken) => {
                &&& batch_rejection(views(payments@)) is None
                &&& views(taken@) == accepted_batch(views(payments@))
            },
            Err(e) => batch_rejection(views(payments@)) == Some(e),
        },
{
    let ghost batch = views(payments@);
    let mut taken: Vec<Payment> = Vec::new();
    let mut i: usize = 0;
    while i < payments.len()
        invariant
            batch == views(payments@),
            i <= payments.len(),
            taken.len() == i,
            forall|j: int| 0 <= j < i ==> payment_rejection(#[trigger] batch[j]) is None,
            forall|j: int| 0 <= j < i ==> (#[trigger] taken[j])@ == accepted(batch[j]),
        decreases payments.len() - i,
    {
        match accept_payment(&payments[i]) {
            Ok(payment) => {
                taken.push(payment);
            },
            Err(e) => {
                proof {
                    assert(first_rejected(batch, i as int));
                    lemma_rejected_for_first(batch, i as int);
                }
                return Err(e);
            },
        }
        i += 1;
    }
    proof {
        lemma_rejection_none(Seq::empty(), batch);
        assert(views(taken@) =~= accepted_batch(batch));
    }
    Ok(taken)
}

} // verus!
