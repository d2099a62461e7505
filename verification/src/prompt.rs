//! The plain-text prompt that stands for a conversation.

use vstd::prelude::*;
use vstd::string::*;

use crate::message::{CompletionRequest, Message, MessageView, Role};
use crate::text::{contains_text, join, joined, part_at, texts};

verus! {

/// What a speaker is called in a prompt.
pub open spec fn role_label(role: Role) -> Seq<char> {
    match role {
        Role::User => "User"@,
        Role::Assistant => "Assistant"@,
        Role::System => "System"@,
    }
}

/// A message in a prompt: the speaker in brackets on a line of its own, then the text.
pub open spec fn prompt_part(message: MessageView) -> Seq<char> {
    "["@ + role_label(message.role) + "]\n"@ + message.text
}

/// The parts of a prompt; a message without text has none.
pub open spec fn prompt_parts(messages: Seq<MessageView>) -> Seq<Seq<char>>
    decreases messages.len(),
{
    if messages.len() == 0 {
        Seq::empty()
    } else {
        let before = prompt_parts(messages.drop_last());
        if messages.last().text.len() == 0 {
            before
        } else {
            before.push(prompt_part(messages.last()))
        }
    }
}

/// The prompt for a conversation: its parts with an empty line between each two.
pub open spec fn prompt_of(messages: Seq<MessageView>) -> Seq<char> {
    joined(prompt_parts(messages), "\n\n"@)
}

/// Writes out one message.
fn format_part(message: &Message) -> (r: String)
    ensures
        r@ == prompt_part(message@),
{
    let label = match message.role {
        Role::User => "User",
        Role::Assistant => "Assistant",
        Role::System => "System",
    };
    "[".to_string().concat(label).concat("]\n").concat(message.text.as_str())
}

/// Builds the prompt for the conversation of `request`; the system prompt is no part of
/// it.
pub fn build_prompt(request: &CompletionRequest) -> (r: String)
    ensures
        r@ == prompt_of(request@.messages),
{
    let mut parts: Vec<String> = Vec::new();
    let ghost all = request@.messages;
    let mut i: usize = 0;
    while i < request.messages.len()
        invariant
            i <= request.messages@.len(),
            all == request@.messages,
            texts(parts@) == prompt_parts(all.take(i as int)),
        decreases request.messages@.len() - i,
    {
        let message = &request.messages[i];
        let ghost before = parts@;
        proof {
            assert(all.take(i + 1).drop_last() =~= all.take(i as int));
            assert(all.take(i + 1).last() == message@);
        }
        if !message.text.as_str().is_empty() {
            let part = format_part(message);
            parts.push(part);
            assert(texts(parts@) =~= texts(before).push(prompt_part(message@)));
        }
        i += 1;
    }
    assert(all.take(i as int) =~= all);
    join(&parts, "\n\n")
}

proof fn lemma_joined_contains(parts: Seq<Seq<char>>, separator: Seq<char>, i: int)
    requires
        0 <= i < parts.len(),
    ensures
        contains_text(joined(parts, separator), parts[i]),
    decreases parts.len(),
{
    let whole = joined(parts, separator);
    if parts.len() == 1 {
        assert(whole.subrange(0, whole.len() as int) =~= parts[0]);
        assert(part_at(whole, parts[0], 0));
    } else if i == parts.len() - 1 {
        let at = whole.len() - parts[i].len();
        assert(whole.subrange(at, whole.len() as int) =~= parts[i]);
        assert(part_at(whole, parts[i], at));
    } else {
        lemma_joined_contains(parts.drop_last(), separator, i);
        let init = joined(parts.drop_last(), separator);
        let at = choose|at: int| part_at(init, parts[i], at);
        assert(parts.drop_last()[i] == parts[i]);
        assert(part_at(init, parts[i], at));
        assert(whole.subrange(at, at + parts[i].len()) =~= init.subrange(at, at + parts[i].len()));
        assert(part_at(whole, parts[i], at));
    }
}

proof fn lemma_prompt_parts_contain(messages: Seq<MessageView>, i: int)
    requires
        0 <= i < messages.len(),
        messages[i].text.len() > 0,
    ensures
        prompt_parts(messages).contains(prompt_part(messages[i])),
    decreases messages.len(),
{
    let parts = prompt_parts(messages);
    if i == messages.len() - 1 {
        assert(parts.last() == prompt_part(messages[i]));
    } else {
        lemma_prompt_parts_contain(messages.drop_last(), i);
        let init = prompt_parts(messages.drop_last());
        let j = choose|j: int| 0 <= j < init.len() && init[j] == prompt_part(messages[i]);
        assert(parts[j] == prompt_part(messages[i]));
    }
}

/// Every message that says something stands in the prompt, under its speaker's label.
pub proof fn law_prompt_holds_every_message(messages: Seq<MessageView>, i: int)
    requires
        0 <= i < messages.len(),
        messages[i].text.len() > 0,
    ensures
        contains_text(prompt_of(messages), prompt_part(messages[i])),
{
    lemma_prompt_parts_contain(messages, i);
    let parts = prompt_parts(messages);
    let j = choose|j: int| 0 <= j < parts.len() && parts[j] == prompt_part(messages[i]);
    lemma_joined_contains(parts, "\n\n"@, j);
}

} // verus!
