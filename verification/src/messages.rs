//! The conversation model: message roles, message content, and the chat
//! request that the query pipeline works on.

use vstd::prelude::*;

verus! {

/// The author of a chat message.
#[derive(Clone, Copy, Debug, PartialEq, Eq, Structural)]
pub enum Role {
    System,
    User,
    Assistant,
    Tool,
}

/// A message body: textual content, or some other shape (image parts and the
/// like) that the query pipeline does not look into.
#[derive(Clone)]
pub enum Content {
    Text(String),
    Other,
}

/// One message of a conversation.
#[derive(Clone)]
pub struct Message {
    pub role: Role,
    pub content: Content,
    pub name: Option<String>,
}

/// The mathematical shape of a message body.
pub enum ContentView {
    Text(Seq<char>),
    Other,
}

/// The mathematical shape of a message.
pub struct MessageView {
    pub role: Role,
    pub content: ContentView,
    pub name: Option<Seq<char>>,
}

impl DeepView for Content {
    type V = ContentView;

    open spec fn deep_view(&self) -> ContentView {
        match self {
            Content::Text(s) => ContentView::Text(s@),
            Content::Other => ContentView::Other,
        }
    }
}

impl DeepView for Message {
    type V = MessageView;

    open spec fn deep_view(&self) -> MessageView {
        MessageView { role: self.role, content: self.content.deep_view(), name: self.name.deep_view() }
    }
}

/// A chat request: the conversation and the caller's streaming preference.
#[derive(Clone)]
pub struct ChatRequest {
    pub messages: Vec<Message>,
    pub stream: Option<bool>,
    pub user: Option<String>,
}

/// True when the message carries textual content.
pub open spec fn has_text(m: MessageView) -> bool {
    m.content is Text
}

/// The textual content of a message; the empty text when it has none.
pub open spec fn text_of(m: MessageView) -> Seq<char> {
    match m.content {
        ContentView::Text(s) => s,
        ContentView::Other => Seq::empty(),
    }
}

} // verus!
