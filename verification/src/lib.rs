//! Batches of payments on Cosmos chains, as single multi-party transfers.
//!
//! A batch of payments to many recipients is turned into one transfer of the
//! bank module with a single input, and that transfer into the message that
//! the sender signs, or that a grantee signs on the sender's behalf. What
//! each function returns is stated in its contract and proved.

use vstd::prelude::*;

pub mod aggregate;
pub mod bank;
pub mod error;
pub mod message;
pub mod order;
pub mod payments;
pub mod totals;
pub mod validate;

use crate::aggregate::{is_multi_send_of, lemma_multi_send_unique, multi_send_args};
use crate::bank::{balanced, MultiSendIo, MultiSendIoView};
use crate::error::AirdropError;
use crate::message::{Message, MessageView};
use crate::payments::{Payment, PaymentView};
use crate::validate::{
    accept_address, accept_payments, accepted_batch, account_id_from_str, lemma_rejection_none,
    payment_rejection, rejection,
};

verus! {

/// The views of a sequence's items, in order.
pub open spec fn views<T: View>(items: Seq<T>) -> Seq<T::V> {
    Seq::new(items.len(), |i: int| items[i]@)
}

/// What building the arguments of a transfer may give: its inputs and its
/// outputs, or why the batch was refused.
pub type MultiSendArgsView = Result<(Seq<MultiSendIoView>, Seq<MultiSendIoView>), AirdropError>;

/// What a result stands for.
pub open spec fn args_view(
    result: Result<(Vec<MultiSendIo>, Vec<MultiSendIo>), AirdropError>,
) -> MultiSendArgsView {
    match result {
        Ok((inputs, outputs)) => Ok((views(inputs@), views(outputs@))),
        Err(e) => Err(e),
    }
}

/// `result` is what the batch `payments` from `sender` comes to: where the
/// batch is refused, the reason; else the transfer that pays the accepted
/// payments from the address that the sender's text stands for.
pub open spec fn is_args_of(
    result: MultiSendArgsView,
    sender: Seq<char>,
    payments: Seq<PaymentView>,
) -> bool {
    match result {
        Ok((inputs, outputs)) => {
            &&& rejection(sender, payments) is None
            &&& is_multi_send_of(
                inputs,
                outputs,
                account_id_from_str(sender).unwrap(),
                accepted_batch(payments),
            )
        },
        Err(e) => rejection(sender, payments) == Some(e),
    }
}

/// Creates the arguments of a multi-party transfer that pays `payments` from
/// `sender_address`: a single input, and one output for each payment.
///
/// The input is single because a transfer with more than one input counts as
/// having several signers, which an execution on the sender's behalf does
/// not allow. The batch is taken whole or refused whole: for the first
/// payment whose recipient's address or whose denomination is malformed, or
/// else for a malformed sender's address.
pub fn multi_send_args_from_payments(
    sender_address: &str,
    payments: Vec<Payment>,
) -> (res: Result<(Vec<MultiSendIo>, Vec<MultiSendIo>), AirdropError>)
    ensures
        is_args_of(args_view(res), sender_address@, views(payments@)),
        res matches Ok(args) ==> {
            &&& args.0.len() == 1
            &&& args.1.len() == payments.len()
            &&& balanced(views(args.0@), views(args.1@))
        },
{
    let taken = accept_payments(&payments)?;
    let sender = accept_address(sender_address)?;
    Ok(multi_send_args(sender.as_str(), &taken))
}

/// What building a message may give: the message, or why the batch was refused.
pub open spec fn message_view(
    result: Result<Message, AirdropError>,
) -> Result<MessageView, AirdropError> {
    match result {
        Ok(msg) => Ok(msg@),
        Err(e) => Err(e),
    }
}

/// `result` is the transfer message that the batch `payments` from `sender`
/// comes to: the message of its inputs and outputs or, where the batch is
/// refused, the reason.
pub open spec fn is_multi_send_message_of(
    result: Result<MessageView, AirdropError>,
    sender: Seq<char>,
    payments: Seq<PaymentView>,
) -> bool {
    match result {
        Ok(MessageView::MultiSend { inputs, outputs }) => is_args_of(
            Ok((inputs, outputs)),
            sender,
            payments,
        ),
        Ok(MessageView::Exec { .. }) => false,
        Err(e) => is_args_of(Err(e), sender, payments),
    }
}

/// `result` is the message with which `grantee` pays the batch `payments` on
/// behalf of who authorized it: the envelope that names `grantee`, as given,
/// to execute the one transfer message that the batch from `grantee` comes
/// to or, where the batch is refused, the reason.
pub open spec fn is_delegated_message_of(
    result: Result<MessageView, AirdropError>,
    grantee: Seq<char>,
    payments: Seq<PaymentView>,
) -> bool {
    match result {
        Ok(MessageView::Exec { grantee: executor, msgs }) => {
            &&& executor == grantee
            &&& msgs.len() == 1
            &&& is_multi_send_message_of(Ok(msgs[0]), grantee, payments)
        },
        Ok(MessageView::MultiSend { .. }) => false,
        Err(e) => is_args_of(Err(e), grantee, payments),
    }
}

/// Builds the message of the multi-party transfer that pays `payments` from
/// `sender_address`, ready to be put in a transaction that the sender signs.
///
/// A batch that is refused gives no message.
pub fn multi_send_from_payments(
    sender_address: &str,
    payments: Vec<Payment>,
) -> (res: Result<Message, AirdropError>)
    ensures
        is_multi_send_message_of(message_view(res), sender_address@, views(payments@)),
{
    let (inputs, outputs) = multi_send_args_from_payments(sender_address, payments)?;
    Ok(Message::multi_send(inputs, outputs))
}

/// Builds the message with which a grantee pays `payments` on behalf of who
/// authorized it, ready to be put in a transaction that the grantee signs.
///
/// The transfer inside is built with the grantee's address as its sender,
/// and the envelope around it names the grantee, as given, to execute it. A
/// batch that is refused gives no message.
pub fn delegated_multi_send_from_payments(
    grantee_address: &str,
    payments: Vec<Payment>,
) -> (res: Result<Message, AirdropError>)
    ensures
        is_delegated_message_of(message_view(res), grantee_address@, views(payments@)),
{
    let inner = multi_send_from_payments(grantee_address, payments)?;
    Ok(inner.exec_by(grantee_address))
}

/// A sender and a batch come to one result only: building twice gives the
/// same transfer, or the same refusal.
pub proof fn lemma_args_unique(
    result: MultiSendArgsView,
    other: MultiSendArgsView,
    sender: Seq<char>,
    payments: Seq<PaymentView>,
)
    requires
        is_args_of(result, sender, payments),
        is_args_of(other, sender, payments),
    ensures
        result == other,
{
    if let Ok((inputs, outputs)) = result {
        let (other_inputs, other_outputs) = other->Ok_0;
        lemma_multi_send_unique(
            inputs,
            outputs,
            other_inputs,
            other_outputs,
            account_id_from_str(sender).unwrap(),
            accepted_batch(payments),
        );
    }
}

/// A batch with a payment whose recipient's address is malformed comes to an
/// error, whatever its other payments are, and so to no transfer at all.
pub proof fn lemma_malformed_recipient_rejects(
    result: MultiSendArgsView,
    sender: Seq<char>,
    payments: Seq<PaymentView>,
    i: int,
)
    requires
        is_args_of(result, sender, payments),
        0 <= i < payments.len(),
        account_id_from_str(payments[i].recipient) is None,
    ensures
        result is Err,
{
    lemma_rejection_none(sender, payments);
    assert(payment_rejection(payments[i]) is Some);
}

} // verus!
