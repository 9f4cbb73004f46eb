//! Messages for the user.
//!
//! The library says what is to be told and of which kind it is. Printing,
//! and the colour of the label, are left to the caller.

use vstd::prelude::*;
use vstd::string::*;

verus! {

/// The kind of a message.
#[derive(Clone, Copy, Debug, PartialEq, Eq, Structural)]
pub enum MessageKind {
    Info,
    Warning,
    Error,
    Question,
}

/// A message: its kind and its text.
#[derive(Debug)]
pub struct Message {
    pub kind: MessageKind,
    pub text: String,
}

/// The mathematical value of a [`Message`].
pub ghost struct MessageModel {
    pub kind: MessageKind,
    pub text: Seq<char>,
}

impl View for Message {
    type V = MessageModel;

    open spec fn view(&self) -> MessageModel {
        MessageModel { kind: self.kind, text: self.text@ }
    }
}

/// The values of a list of messages, in order.
pub open spec fn messages(list: Seq<Message>) -> Seq<MessageModel> {
    Seq::new(list.len(), |i: int| list[i]@)
}

impl MessageKind {
    /// The label that is printed before a message of this kind.
    pub open spec fn spec_label(self) -> Seq<char> {
        match self {
            MessageKind::Info => "Info:"@,
            MessageKind::Warning => "Warning:"@,
            MessageKind::Error => "Err:"@,
            MessageKind::Question => "Question:"@,
        }
    }

    /// The label that is printed before a message of this kind.
    pub fn label(self) -> (r: &'static str)
        ensures
            r@ == self.spec_label(),
    {
        match self {
            MessageKind::Info => "Info:",
            MessageKind::Warning => "Warning:",
            MessageKind::Error => "Err:",
            MessageKind::Question => "Question:",
        }
    }
}

impl Message {
    /// The line to print: the label, a space, and the text.
    pub fn line(&self) -> (r: String)
        ensures
            r@ == self.kind.spec_label() + " "@ + self.text@,
    {
        self.kind.label().to_owned().concat(" ").concat(self.text.as_str())
    }
}

/// A piece of information.
pub fn info(string: &str) -> (r: Message)
    ensures
        r@ == (MessageModel { kind: MessageKind::Info, text: string@ }),
{
    Message { kind: MessageKind::Info, text: string.to_owned() }
}

/// A warning.
pub fn warning(string: &str) -> (r: Message)
    ensures
        r@ == (MessageModel { kind: MessageKind::Warning, text: string@ }),
{
    Message { kind: MessageKind::Warning, text: string.to_owned() }
}

/// An error.
pub fn error(string: &str) -> (r: Message)
    ensures
        r@ == (MessageModel { kind: MessageKind::Error, text: string@ }),
{
    Message { kind: MessageKind::Error, text: string.to_owned() }
}

/// A question.
pub fn question(string: &str) -> (r: Message)
    ensures
        r@ == (MessageModel { kind: MessageKind::Question, text: string@ }),
{
    Message { kind: MessageKind::Question, text: string.to_owned() }
}

} // verus!
