//! What the driver tells the user.
use crate::text::text_of;
use vstd::prelude::*;

verus! {

/// A message for the user.
#[derive(Debug)]
pub enum Message {
    /// A piece of information.
    Note(String),
    /// A piece of information with a highlighted phrase in it.
    Highlighted { before: String, phrase: String, after: String },
    /// A warning.
    Warning(String),
    /// An error message.
    Error(String),
    /// Text in the style of an error message, on a line of its own.
    ErrorStyled(String),
    /// The output of an engine, to be shown as it is.
    Dump(Vec<u8>),
}

/// A message as a mathematical value.
pub ghost enum MessageView {
    Note(Seq<char>),
    Highlighted { before: Seq<char>, phrase: Seq<char>, after: Seq<char> },
    Warning(Seq<char>),
    Error(Seq<char>),
    ErrorStyled(Seq<char>),
    Dump(Seq<u8>),
}

impl View for Message {
    type V = MessageView;

    open spec fn view(&self) -> MessageView {
        match self {
            Message::Note(text) => MessageView::Note(text@),
            Message::Highlighted { before, phrase, after } => MessageView::Highlighted {
                before: before@,
                phrase: phrase@,
                after: after@,
            },
            Message::Warning(text) => MessageView::Warning(text@),
            Message::Error(text) => MessageView::Error(text@),
            Message::ErrorStyled(text) => MessageView::ErrorStyled(text@),
            Message::Dump(bytes) => MessageView::Dump(bytes@),
        }
    }
}

/// The messages of a list, as mathematical values.
pub open spec fn message_views(messages: Seq<Message>) -> Seq<MessageView> {
    messages.map_values(|message: Message| message@)
}

/// Puts a message behind the others.
pub(crate) fn push_message(messages: &mut Vec<Message>, message: Message)
    ensures
        message_views(final(messages)@) == message_views(old(messages)@).push(message@),
{
    let ghost before = messages@;
    messages.push(message);
    assert(message_views(messages@) =~= message_views(before).push(message@));
}

/// A list without messages.
pub(crate) fn no_messages() -> (messages: Vec<Message>)
    ensures
        message_views(messages@) == Seq::<MessageView>::empty(),
{
    let messages: Vec<Message> = Vec::new();
    assert(message_views(messages@) =~= Seq::<MessageView>::empty());
    messages
}

/// A highlighted message.
pub(crate) fn highlighted(before: &str, phrase: &str, after: &str) -> (message: Message)
    ensures
        message@ == (MessageView::Highlighted { before: before@, phrase: phrase@, after: after@ }),
{
    Message::Highlighted { before: text_of(before), phrase: text_of(phrase), after: text_of(after) }
}

} // verus!
