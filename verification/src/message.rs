//! Chat messages and the prompt that is sent to the model.

use crate::json::{json_string, push_json_string};
use crate::text::same_text;
use vstd::prelude::*;
use vstd::string::StringExecFns;

verus! {

/// One turn of a conversation. The role is an open set of strings; the ones
/// that matter here are `"user"` and `"system"`, and any other passes through
/// as it is.
#[derive(Clone, Debug)]
pub struct Message {
    pub role: String,
    pub content: String,
}

/// What a message says, as plain text.
pub ghost struct MessageView {
    pub role: Seq<char>,
    pub content: Seq<char>,
}

impl View for Message {
    type V = MessageView;

    open spec fn view(&self) -> MessageView {
        MessageView { role: self.role@, content: self.content@ }
    }
}

impl DeepView for Message {
    type V = MessageView;

    open spec fn deep_view(&self) -> MessageView {
        self@
    }
}

/// The persona that every prompt to the model starts with.
pub const SYSTEM_PROMPT: &'static str =
    "You are UOMI Agent, a helpful assistant focused on blockchain and financial services.";

/// The model that conversations are sent to.
pub const MODEL_ID: i32 = 1;

/// A message in the system role.
pub open spec fn system_message_view(content: Seq<char>) -> MessageView {
    MessageView { role: "system"@, content }
}

/// The content of the latest message whose role is `"user"`, or the empty
/// text if there is none.
pub open spec fn last_user_text(messages: Seq<MessageView>) -> Seq<char>
    decreases messages.len(),
{
    if messages.len() == 0 {
        Seq::empty()
    } else if messages.last().role == "user"@ {
        messages.last().content
    } else {
        last_user_text(messages.drop_last())
    }
}

/// The conversation as the model receives it: the system message, then the
/// messages as they came.
pub open spec fn prompt_messages(system: MessageView, messages: Seq<MessageView>) -> Seq<
    MessageView,
> {
    seq![system] + messages
}

/// One message as a JSON object.
pub open spec fn message_json(m: MessageView) -> Seq<char> {
    "{\"role\":"@ + json_string(m.role) + ",\"content\":"@ + json_string(m.content) + "}"@
}

/// The messages as JSON objects with commas between them.
pub open spec fn messages_json(messages: Seq<MessageView>) -> Seq<char>
    decreases messages.len(),
{
    if messages.len() == 0 {
        Seq::empty()
    } else if messages.len() == 1 {
        message_json(messages[0])
    } else {
        messages_json(messages.drop_last()) + ","@ + message_json(messages.last())
    }
}

/// The body of a request to the model: an object whose one member,
/// `messages`, is the array of the messages.
pub open spec fn prompt_text(messages: Seq<MessageView>) -> Seq<char> {
    "{\"messages\": ["@ + messages_json(messages) + "]}"@
}

/// A message in the system role with the given content.
pub fn system_message(content: String) -> (m: Message)
    ensures
        m@ == system_message_view(content@),
{
    Message { role: String::from_str("system"), content }
}

/// The conversation as the model is to receive it: `system` first, then
/// `messages` in their order, each as it was.
pub fn process_messages(system: Message, messages: Vec<Message>) -> (out: Vec<Message>)
    ensures
        out.deep_view() == prompt_messages(system@, messages.deep_view()),
        out@ == seq![system] + messages@,
{
    let mut out = messages;
    out.insert(0, system);
    assert(out@ =~= seq![system] + messages@);
    assert(out.deep_view() =~= prompt_messages(system@, messages.deep_view()));
    out
}

/// The content of the latest message from the user, or the empty text if the
/// user has said nothing.
pub fn last_user_content(messages: &Vec<Message>) -> (content: String)
    ensures
        content@ == last_user_text(messages.deep_view()),
{
    let ghost all = messages.deep_view();
    let mut i: usize = messages.len();
    assert(all.subrange(0, i as int) =~= all);
    while i > 0
        invariant
            i <= messages.len(),
            all == messages.deep_view(),
            last_user_text(all) == last_user_text(all.subrange(0, i as int)),
        decreases i,
    {
        let ghost upto = all.subrange(0, i as int);
        i -= 1;
        let m = &messages[i];
        assert(upto.last() == m@);
        if same_text(m.role.as_str(), "user") {
            return m.content.clone();
        }
        assert(upto.drop_last() =~= all.subrange(0, i as int));
    }
    String::new()
}

/// Writes one message behind `out` as a JSON object.
pub fn push_message_json(out: &mut String, m: &Message)
    ensures
        final(out)@ == old(out)@ + message_json(m@),
{
    out.append("{\"role\":");
    push_json_string(out, m.role.as_str());
    out.append(",\"content\":");
    push_json_string(out, m.content.as_str());
    out.append("}");
    assert(out@ =~= old(out)@ + message_json(m@));
}

/// The body of the request that sends `messages` to the model.
pub fn prompt_body(messages: &Vec<Message>) -> (out: String)
    ensures
        out@ == prompt_text(messages.deep_view()),
{
    let ghost all = messages.deep_view();
    let mut out = String::from_str("{\"messages\": [");
    let ghost head = out@;
    let mut i: usize = 0;
    assert(all.subrange(0, 0) =~= Seq::<MessageView>::empty());
    while i < messages.len()
        invariant
            i <= messages.len(),
            all == messages.deep_view(),
            out@ == head + messages_json(all.subrange(0, i as int)),
        decreases messages.len() - i,
    {
        let ghost done = all.subrange(0, i as int);
        let ghost next = all.subrange(0, i + 1);
        if i > 0 {
            out.append(",");
        }
        push_message_json(&mut out, &messages[i]);
        proof {
            assert(next.drop_last() =~= done);
            assert(next.last() == messages[i as int]@);
            assert(out@ =~= head + messages_json(next));
        }
        i += 1;
    }
    assert(all.subrange(0, messages.len() as int) =~= all);
    out.append("]}");
    out
}

} // verus!
