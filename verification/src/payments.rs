//! Payments and batch definitions.

use vstd::prelude::*;

verus! {

/// A payment of a single denomination to one recipient.
#[derive(Clone, Debug, PartialEq)]
pub struct Payment {
    /// The address that is paid.
    pub recipient: String,
    /// How much is paid, in units of `denom`. Zero is a payment too.
    pub amount: u64,
    /// The denomination in which is paid.
    pub denom: String,
}

/// What a [`Payment`] stands for.
pub struct PaymentView {
    pub recipient: Seq<char>,
    pub amount: nat,
    pub denom: Seq<char>,
}

impl View for Payment {
    type V = PaymentView;

    open spec fn view(&self) -> PaymentView {
        PaymentView { recipient: self.recipient@, amount: self.amount as nat, denom: self.denom@ }
    }
}

/// A batch definition: where the keys are kept, and the payments in order.
#[derive(Debug, PartialEq)]
pub struct PaymentsToml {
    /// Where the sender's signing key is kept.
    pub sender_key: String,
    /// Where the key of a grantee is kept, who signs on the sender's behalf.
    pub grantee_key: Option<String>,
    /// The payments, in their order.
    pub payments: Vec<Payment>,
}

impl PaymentsToml {
    /// The batch definition of `payments`, to be signed with the key at
    /// `sender_key_path` or, where one is given, on the sender's behalf with
    /// the key at `grantee_key_path`.
    pub fn new(
        sender_key_path: &str,
        grantee_key_path: Option<&str>,
        payments: Vec<Payment>,
    ) -> (batch: PaymentsToml)
        ensures
            batch.sender_key@ == sender_key_path@,
            match grantee_key_path {
                Some(path) => batch.grantee_key matches Some(key) && key@ == path@,
                None => batch.grantee_key is None,
            },
            batch.payments == payments,
    {
        let grantee_key = match grantee_key_path {
            Some(path) => Some(path.to_owned()),
            None => None,
        };
        PaymentsToml { sender_key: sender_key_path.to_owned(), grantee_key, payments }
    }
}

} // verus!
