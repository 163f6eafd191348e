//! The messages that the library builds for a transaction.

use vstd::prelude::*;

use crate::bank::{MultiSendIo, MultiSendIoView};
use crate::views;

verus! {

/// A message that a transaction can carry.
#[derive(Debug, PartialEq, Eq)]
pub enum Message {
    /// A multi-party transfer of the bank module.
    MultiSend { inputs: Vec<MultiSendIo>, outputs: Vec<MultiSendIo> },
    /// An execution of `msgs` by `grantee`, on behalf of those who authorized it.
    Exec { grantee: String, msgs: Vec<Message> },
}

/// What a [`Message`] stands for.
pub enum MessageView {
    MultiSend { inputs: Seq<MultiSendIoView>, outputs: Seq<MultiSendIoView> },
    Exec { grantee: Seq<char>, msgs: Seq<MessageView> },
}

impl View for Message {
    type V = MessageView;

    open spec fn view(&self) -> MessageView
        decreases self,
    {
        match self {
            Message::MultiSend { inputs, outputs } => MessageView::MultiSend {
                inputs: views(inputs@),
                outputs: views(outputs@),
            },
            Message::Exec { grantee, msgs } => MessageView::Exec {
                grantee: grantee@,
                msgs: Seq::new(
                    msgs@.len(),
                    |i: int|
                        if 0 <= i < msgs@.len() {
                            msgs@[i]@
                        } else {
                            arbitrary()
                        },
                ),
            },
        }
    }
}

impl Message {
    /// The transfer with these inputs and outputs, as a message.
    pub fn multi_send(inputs: Vec<MultiSendIo>, outputs: Vec<MultiSendIo>) -> (msg: Message)
        ensures
            msg@ == (MessageView::MultiSend { inputs: views(inputs@), outputs: views(outputs@) }),
    {
        Message::MultiSend { inputs, outputs }
    }

    /// Wraps a message that is already built into the envelope that has
    /// `grantee` execute it.
    ///
    /// The envelope changes who may sign, not whose balance moves: the
    /// message inside is kept as it is.
    pub fn exec_by(self, grantee: &str) -> (msg: Message)
        ensures
            msg@ == (MessageView::Exec { grantee: grantee@, msgs: seq![self@] }),
    {
        let mut msgs: Vec<Message> = Vec::new();
        msgs.push(self);
        let msg = Message::Exec { grantee: grantee.to_owned(), msgs };
        assert(msg@->Exec_msgs =~= seq![self@]);
        msg
    }
}

} // verus!
