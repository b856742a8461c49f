//! The prompt merger: a pure function that folds retrieved context into the
//! system message at the head of a conversation.

use crate::messages::{Content, ContentView, Message, MessageView, Role, has_text, text_of};
use crate::text::{trim_end_spec, trim_end_str, trim_spec, trim_str};
use vstd::prelude::*;
use vstd::string::*;

verus! {

/// The merger's programmer-error guards.
#[derive(Clone, Copy, Debug, PartialEq, Eq, Structural)]
pub enum MergeError {
    /// The message list was empty.
    NoMessages,
    /// No context was provided.
    NoContext,
}

impl MergeError {
    /// The human-readable message for the merger's guards.
    pub fn describe(&self) -> (r: String)
        ensures
            r@.len() > 0,
    {
        let m: &str = match self {
            MergeError::NoMessages => "The message list is empty.",
            MergeError::NoContext => "No context provided.",
        };
        proof {
            reveal_strlit("The message list is empty.");
            reveal_strlit("No context provided.");
        }
        String::from_str(m)
    }
}

/// The content of a system message after merging: the trimmed original
/// content, a newline, and the context with trailing whitespace removed.
pub open spec fn merged_content(sys: Seq<char>, ctx: Seq<char>) -> Seq<char> {
    trim_spec(sys) + seq!['\n'] + trim_end_spec(ctx)
}

/// What merging does to a non-empty message list: only the head message is
/// touched, and only when it is a system message with textual content.
pub open spec fn spec_merge(msgs: Seq<MessageView>, ctx: Seq<char>) -> Seq<MessageView>
    recommends
        msgs.len() > 0,
{
    let m0 = msgs[0];
    if m0.role == Role::System && has_text(m0) {
        msgs.update(
            0,
            MessageView {
                role: Role::System,
                content: ContentView::Text(merged_content(text_of(m0), ctx)),
                name: m0.name,
            },
        )
    } else {
        msgs
    }
}

/// Folds the first context fragment into the conversation's head system
/// message; messages at other indices, and a non-system head, are left as
/// they are.
pub fn merge(messages: &mut Vec<Message>, context: &Vec<String>) -> (r: Result<(), MergeError>)
    ensures
        r is Err ==> final(messages).deep_view() == old(messages).deep_view(),
        (r == Result::<(), MergeError>::Err(MergeError::NoMessages)) <==> old(messages)@.len()
            == 0,
        (r == Result::<(), MergeError>::Err(MergeError::NoContext)) <==> (old(messages)@.len() > 0
            && context@.len() == 0),
        r is Ok <==> (old(messages)@.len() > 0 && context@.len() > 0),
        r is Ok ==> final(messages).deep_view() == spec_merge(
            old(messages).deep_view(),
            context@[0]@,
        ),
{
    if messages.len() == 0 {
        return Err(MergeError::NoMessages);
    }
    if context.len() == 0 {
        return Err(MergeError::NoContext);
    }
    let mut new_content: Option<String> = None;
    let m0 = &messages[0];
    if m0.role == Role::System {
        if let Content::Text(s) = &m0.content {
            let mut c = trim_str(s.as_str());
            c.append("\n");
            let trimmed_ctx = trim_end_str(context[0].as_str());
            c.append(trimmed_ctx.as_str());
            proof {
                reveal_strlit("\n");
                assert("\n"@ =~= seq!['\n']);
                assert(c@ == merged_content(s@, context@[0]@));
            }
            new_content = Some(c);
        }
    }
    if let Some(c) = new_content {
        let name2 = match &messages[0].name {
            Some(n) => Some(n.clone()),
            None => None,
        };
        let replaced = Message { role: Role::System, content: Content::Text(c), name: name2 };
        let _head = messages.remove(0);
        messages.insert(0, replaced);
        proof {
            assert(messages.deep_view() =~= spec_merge(old(messages).deep_view(), context@[0]@));
        }
    } else {
        proof {
            assert(messages.deep_view() =~= spec_merge(old(messages).deep_view(), context@[0]@));
        }
    }
    Ok(())
}

} // verus!
