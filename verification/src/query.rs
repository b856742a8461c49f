//! The query pipeline: validating the incoming conversation, settling the
//! outcome of the vector-store search, and injecting retrieved context into
//! the prompt before dispatch.

use crate::RagError;
use crate::merger::{merge, merged_content, spec_merge};
use crate::messages::{ChatRequest, Content, ContentView, Message, MessageView, Role, has_text, text_of};
use vstd::prelude::*;
use vstd::string::*;

verus! {

/// The read-only retrieval configuration, fixed before either pipeline runs.
#[derive(Clone)]
pub struct RagConfig {
    pub collection: String,
    pub limit: u64,
}

impl RagConfig {
    /// The result limit must be positive.
    pub open spec fn wf(&self) -> bool {
        self.limit >= 1
    }
}

/// What the query pipeline needs for its first collaborator calls: the query
/// text to embed, the search parameters, and the caller's streaming choice.
pub struct QueryStart {
    pub query: String,
    pub collection: String,
    pub limit: u64,
    pub stream: bool,
}

/// One retrieval result, reduced to what the pipeline reads: the `source`
/// payload field, when the stored point carried one.
#[derive(Clone)]
pub struct RetrievedPoint {
    pub source: Option<String>,
}

/// The mathematical shape of a retrieval result.
pub struct RetrievedPointView {
    pub source: Option<Seq<char>>,
}

impl DeepView for RetrievedPoint {
    type V = RetrievedPointView;

    open spec fn deep_view(&self) -> RetrievedPointView {
        RetrievedPointView { source: self.source.deep_view() }
    }
}

/// A conversation the pipeline will run retrieval for: non-empty, with a
/// user-authored, textual last message.
pub open spec fn valid_query_shape(msgs: Seq<MessageView>) -> bool {
    msgs.len() > 0 && msgs.last().role == Role::User && has_text(msgs.last())
}

/// Validates the conversation and reads the configuration, before any
/// collaborator is called.
///
/// A missing configuration is a fatal configuration error; a conversation
/// that is empty, does not end in a user message, or ends in non-textual
/// content is rejected as a validation error, and no other input is.
pub fn start_query(req: &ChatRequest, config: Option<&RagConfig>) -> (r: Result<
    QueryStart,
    RagError,
>)
    requires
        config matches Some(c) ==> c.wf(),
    ensures
        r is Ok <==> (config is Some && valid_query_shape(req.messages.deep_view())),
        config is None ==> r == Result::<QueryStart, RagError>::Err(RagError::Configuration),
        config is Some && !valid_query_shape(req.messages.deep_view()) ==> r == Result::<
            QueryStart,
            RagError,
        >::Err(RagError::Validation),
        r matches Ok(q) ==> config matches Some(cfg) && {
            &&& q.query@ == text_of(req.messages.deep_view().last())
            &&& q.collection@ == cfg.collection@
            &&& q.limit == cfg.limit
            &&& q.stream == (req.stream == Some(true))
        },
{
    let cfg = match config {
        Some(c) => c,
        None => {
            return Err(RagError::Configuration);
        },
    };
    let n = req.messages.len();
    if n == 0 {
        return Err(RagError::Validation);
    }
    let last = &req.messages[n - 1];
    if last.role == Role::User {
        if let Content::Text(t) = &last.content {
            let stream = match req.stream {
                Some(true) => true,
                _ => false,
            };
            return Ok(
                QueryStart {
                    query: t.clone(),
                    collection: cfg.collection.clone(),
                    limit: cfg.limit,
                    stream,
                },
            );
        }
    }
    Err(RagError::Validation)
}

/// Settles the outcome of the vector-store search: retrieval is best-effort,
/// so a failed search degrades to no retrieved points (and says so) instead
/// of failing the request.
pub fn settle_search(outcome: Result<Vec<RetrievedPoint>, RagError>) -> (r: (
    Vec<RetrievedPoint>,
    bool,
))
    ensures
        outcome matches Ok(pts) ==> r.0.deep_view() == pts.deep_view() && r.1 == false,
        outcome is Err ==> r.0.deep_view() =~= Seq::<RetrievedPointView>::empty() && r.1 == true,
{
    match outcome {
        Ok(points) => (points, false),
        Err(_) => (Vec::new(), true),
    }
}

/// The context string built from retrieved points, in result order: each
/// `source` field followed by a blank line; points without a source are
/// skipped.
pub open spec fn context_of(points: Seq<RetrievedPointView>) -> Seq<char>
    decreases points.len(),
{
    if points.len() == 0 {
        Seq::empty()
    } else {
        context_of(points.drop_last()) + match points.last().source {
            Some(s) => s + "\n\n"@,
            None => Seq::<char>::empty(),
        }
    }
}

/// Concatenates the retrieved points' `source` fields, in order, each
/// followed by a blank line.
pub fn build_context(points: &Vec<RetrievedPoint>) -> (r: String)
    ensures
        r@ == context_of(points.deep_view()),
{
    let mut out = String::new();
    let mut i: usize = 0;
    proof {
        assert(points.deep_view().subrange(0, 0) =~= Seq::<RetrievedPointView>::empty());
    }
    while i < points.len()
        invariant
            0 <= i <= points@.len(),
            points.deep_view().len() == points@.len(),
            out@ == context_of(points.deep_view().subrange(0, i as int)),
        decreases points@.len() - i,
    {
        match &points[i].source {
            Some(s) => {
                out.append(s.as_str());
                out.append("\n\n");
            },
            None => {},
        }
        proof {
            let pv = points.deep_view();
            assert(pv.subrange(0, i + 1).drop_last() =~= pv.subrange(0, i as int));
            assert(pv.subrange(0, i + 1).last() == pv[i as int]);
        }
        i = i + 1;
    }
    proof {
        assert(points.deep_view().subrange(0, points.deep_view().len() as int)
            =~= points.deep_view());
    }
    out
}

/// What context injection does to the conversation: the head message is
/// replaced by (or, when the head is not a system message, preceded by) a
/// system message holding the configured base prompt, and the context is then
/// merged into that system message.
pub open spec fn spec_inject(msgs: Seq<MessageView>, base: Seq<char>, ctx: Seq<char>) -> Seq<
    MessageView,
>
    recommends
        msgs.len() > 0,
{
    let forced = MessageView {
        role: Role::System,
        content: ContentView::Text(base),
        name: msgs[0].name,
    };
    let replaced = if msgs[0].role == Role::System {
        msgs.update(0, forced)
    } else {
        msgs.insert(0, forced)
    };
    spec_merge(replaced, ctx)
}

/// The net effect of context injection on any non-empty conversation: the
/// head of the result is a system message whose content is the configured
/// base prompt followed by a newline and the trimmed context — whatever the
/// original head said — and every other message is kept, in order.
pub proof fn lemma_inject_net_effect(msgs: Seq<MessageView>, base: Seq<char>, ctx: Seq<char>)
    requires
        msgs.len() > 0,
    ensures
        spec_inject(msgs, base, ctx).len() >= 1,
        spec_inject(msgs, base, ctx)[0].role == Role::System,
        spec_inject(msgs, base, ctx)[0].content == ContentView::Text(merged_content(base, ctx)),
        msgs[0].role == Role::System ==> spec_inject(msgs, base, ctx).len() == msgs.len() && (
        forall|i: int|
            1 <= i < msgs.len() ==> spec_inject(msgs, base, ctx)[i] == msgs[i]),
        msgs[0].role != Role::System ==> spec_inject(msgs, base, ctx).len() == msgs.len() + 1 && (
        forall|i: int|
            1 <= i < msgs.len() + 1 ==> spec_inject(msgs, base, ctx)[i] == msgs[i - 1]),
{
    let forced = MessageView {
        role: Role::System,
        content: ContentView::Text(base),
        name: msgs[0].name,
    };
    if msgs[0].role == Role::System {
        let replaced = msgs.update(0, forced);
        assert(replaced[0] == forced);
        assert(spec_inject(msgs, base, ctx) == spec_merge(replaced, ctx));
    } else {
        let replaced = msgs.insert(0, forced);
        assert(replaced[0] == forced);
        assert(spec_inject(msgs, base, ctx) == spec_merge(replaced, ctx));
    }
}

/// Injects retrieved context into the conversation.
///
/// With no retrieved points the conversation is left exactly as the caller
/// supplied it: context injection and the system-prompt rewrite are coupled
/// on purpose. With points, the head system message is forced to the
/// configured base prompt and the context is merged into it; a missing base
/// prompt is a configuration error.
pub fn inject_context(
    messages: &mut Vec<Message>,
    base: Option<&String>,
    points: &Vec<RetrievedPoint>,
) -> (r: Result<(), RagError>)
    ensures
        points@.len() == 0 ==> r is Ok && final(messages).deep_view() == old(
            messages,
        ).deep_view(),
        points@.len() > 0 && old(messages)@.len() == 0 ==> r == Result::<(), RagError>::Err(
            RagError::Validation,
        ) && final(messages).deep_view() == old(messages).deep_view(),
        points@.len() > 0 && old(messages)@.len() > 0 && base is None ==> r == Result::<
            (),
            RagError,
        >::Err(RagError::Configuration) && final(messages).deep_view() == old(
            messages,
        ).deep_view(),
        points@.len() > 0 && old(messages)@.len() > 0 ==> (base matches Some(b) ==> r is Ok
            && final(messages).deep_view() == spec_inject(
            old(messages).deep_view(),
            b@,
            context_of(points.deep_view()),
        )),
{
    if points.len() == 0 {
        return Ok(());
    }
    if messages.len() == 0 {
        return Err(RagError::Validation);
    }
    let b = match base {
        Some(b) => b,
        None => {
            return Err(RagError::Configuration);
        },
    };
    let context = build_context(points);
    let name0 = match &messages[0].name {
        Some(n) => Some(n.clone()),
        None => None,
    };
    let forced = Message { role: Role::System, content: Content::Text(b.clone()), name: name0 };
    let ghost before = messages.deep_view();
    let ghost forced_view = forced.deep_view();
    if messages[0].role == Role::System {
        let _head = messages.remove(0);
        messages.insert(0, forced);
        proof {
            assert(messages.deep_view() =~= before.update(0, forced_view));
        }
    } else {
        messages.insert(0, forced);
        proof {
            assert(messages.deep_view() =~= before.insert(0, forced_view));
        }
    }
    let mut context_list: Vec<String> = Vec::new();
    context_list.push(context);
    let merged = merge(messages, &context_list);
    match merged {
        Ok(()) => Ok(()),
        Err(_) => {
            proof {
                assert(false);
            }
            Err(RagError::Validation)
        },
    }
}

} // verus!
