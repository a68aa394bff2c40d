//! What the bot sends back: a text, where it goes, and the buttons under it.

use vstd::prelude::*;

verus! {

/// The buttons that go with a message.
#[derive(Debug, PartialEq, Eq)]
pub enum Markup {
    /// None.
    Plain,
    /// Takes the reply keyboard away.
    RemoveKeyboard,
    /// The main menu.
    MainMenu,
    /// A button that asks for the same report again, with the data that it sends back.
    Refresh(String),
}

/// A message to the chat that a command came from.
#[derive(Debug, PartialEq, Eq)]
pub struct Reply {
    pub text: String,
    /// The message that is rewritten; a new message is sent if there is none.
    pub edit: Option<i32>,
    pub markup: Markup,
}

/// The view of the buttons.
pub enum MarkupView {
    Plain,
    RemoveKeyboard,
    MainMenu,
    Refresh(Seq<char>),
}

/// The view of a message.
pub struct ReplyView {
    pub text: Seq<char>,
    pub edit: Option<i32>,
    pub markup: MarkupView,
}

impl View for Markup {
    type V = MarkupView;

    open spec fn view(&self) -> MarkupView {
        match self {
            Markup::Plain => MarkupView::Plain,
            Markup::RemoveKeyboard => MarkupView::RemoveKeyboard,
            Markup::MainMenu => MarkupView::MainMenu,
            Markup::Refresh(data) => MarkupView::Refresh(data@),
        }
    }
}

impl View for Reply {
    type V = ReplyView;

    open spec fn view(&self) -> ReplyView {
        ReplyView { text: self.text@, edit: self.edit, markup: self.markup@ }
    }
}

/// A new message without buttons.
pub open spec fn plain(text: Seq<char>) -> ReplyView {
    ReplyView { text, edit: None, markup: MarkupView::Plain }
}

/// A report that can be asked for again: it rewrites the message that it was asked from, if it
/// was asked by its own button.
pub open spec fn refreshable(text: Seq<char>, edit: Option<i32>, data: Seq<char>) -> ReplyView {
    ReplyView { text, edit, markup: MarkupView::Refresh(data) }
}

/// A new message without buttons.
pub fn plain_reply(text: String) -> (r: Reply)
    ensures
        r@ == plain(text@),
{
    Reply { text, edit: None, markup: Markup::Plain }
}

/// A report with the button that asks for it again.
pub fn refreshable_reply(text: String, edit: Option<i32>, data: &str) -> (r: Reply)
    ensures
        r@ == refreshable(text@, edit, data@),
{
    Reply { text, edit, markup: Markup::Refresh(data.to_owned()) }
}

/// A reply says the text that it was made from, and nothing less; only a report rewrites the message
/// that it was asked from, and only a report has the button that asks for it again.
pub proof fn replies_say_their_text(text: Seq<char>, edit: Option<i32>, data: Seq<char>)
    ensures
        plain(text).text == text,
        plain(text).edit is None,
        plain(text).markup is Plain,
        refreshable(text, edit, data).text == text,
        refreshable(text, edit, data).edit == edit,
        refreshable(text, edit, data).markup == MarkupView::Refresh(data),
{
}

/// A reply is viewed with its own text, message and buttons.
pub proof fn replies_are_viewed_whole(reply: Reply, data: String)
    ensures
        reply@.text == reply.text@,
        reply@.edit == reply.edit,
        reply@.markup == reply.markup@,
        Markup::Refresh(data)@ == MarkupView::Refresh(data@),
        Markup::Plain@ is Plain,
        Markup::MainMenu@ is MainMenu,
        Markup::RemoveKeyboard@ is RemoveKeyboard,
{
}

} // verus!
